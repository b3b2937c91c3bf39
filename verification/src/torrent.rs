use vstd::prelude::*;

use crate::text::{
    chars_at_or_before, chars_le, chars_of, lemma_chars_le_first_difference,
    lemma_chars_le_reflexive, lemma_chars_le_total, lemma_chars_le_transitive,
};
use crate::time::{from_timestamp_secs, UtcTime, MAX_TIMESTAMP, MIN_TIMESTAMP};

verus! {

/// The uuid crate's `Uuid`, declared so that a torrent can carry its id;
/// nothing is read from it.
#[verifier::external_type_specification]
#[verifier::external_body]
pub struct ExUuid(uuid::Uuid);

/// A torrent as the search endpoint describes it.
pub struct Torrent {
    pub id: uuid::Uuid,
    pub title: String,
    pub info_hash_v1: Option<String>,
    pub info_hash_v2: Option<String>,
    pub size_fmt: String,
    pub completed: u64,
    pub seeders: u32,
    pub leechers: u32,
    pub languages: Vec<String>,
    pub comment_count: u32,
    pub created_at: String,
    pub created_at_unix: u64,
    pub cat_slug: Option<String>,
    pub sub_slug: Option<String>,
    pub group_name: Option<String>,
    pub uploader: Option<String>,
    pub magnet: String,
}

/// One page of search results.
pub struct SearchResults {
    pub total: u32,
    pub page: u32,
    pub per_page: u32,
    pub total_pages: u32,
    pub from: u32,
    pub to: u32,
    pub torrents: Vec<Torrent>,
}

/// The answer of the token endpoint: a bearer token and its lifetime in
/// seconds.
pub struct TokenResponse {
    pub token: String,
    pub token_type: String,
    pub expires_in: u32,
}

impl Torrent {
    /// When the torrent was created, from its Unix timestamp read as an
    /// `i64` (as `as` does, so past `i64::MAX` it wraps), or `None` where
    /// chrono cannot hold that instant.
    pub fn created_at(&self) -> (created: Option<UtcTime>)
        ensures
            created is Some <==> MIN_TIMESTAMP <= (self.created_at_unix as i64) <= MAX_TIMESTAMP,
            created matches Some(time) ==> time.secs == self.created_at_unix as i64 && time.nanos
                == 0,
    {
        from_timestamp_secs(self.created_at_unix as i64)
    }
}

/// What `str::to_lowercase` gives for a string: its characters mapped by
/// Unicode's lowercase mapping.
pub uninterp spec fn lowercase(s: Seq<char>) -> Seq<char>;

/// The lowercase form of `s`; trusted wrapper around `str::to_lowercase`.
#[verifier::external_body]
fn to_lowercase(s: &str) -> (lowered: String)
    ensures
        lowered@ == lowercase(s@),
{
    s.to_lowercase()
}

/// The key that search results are ordered by: the lowercase title.
pub open spec fn title_key(t: Torrent) -> Seq<char> {
    lowercase(t.title@)
}

/// Holds of the torrents whose lowercase title is `key`.
pub open spec fn has_title_key(key: Seq<char>) -> spec_fn(Torrent) -> bool {
    |t: Torrent| title_key(t) == key
}

/// `sorted` with `t` placed after every torrent whose key is at or before
/// that of `t`, counted from the end.
pub open spec fn insert_by_title(sorted: Seq<Torrent>, t: Torrent) -> Seq<Torrent>
    decreases sorted.len(),
{
    if sorted.len() == 0 {
        seq![t]
    } else if chars_le(title_key(sorted.last()), title_key(t)) {
        sorted.push(t)
    } else {
        insert_by_title(sorted.drop_last(), t).push(sorted.last())
    }
}

/// The torrents in the order of a stable sort by lowercase title, as
/// `slice::sort_by_key` gives them.
pub open spec fn sorted_by_title(torrents: Seq<Torrent>) -> Seq<Torrent>
    decreases torrents.len(),
{
    if torrents.len() == 0 {
        seq![]
    } else {
        insert_by_title(sorted_by_title(torrents.drop_last()), torrents.last())
    }
}

/// The keys of `torrents` never decrease.
pub open spec fn is_sorted_by_title(torrents: Seq<Torrent>) -> bool {
    forall|i: int, j: int|
        0 <= i < j < torrents.len() ==> chars_le(
            #[trigger] title_key(torrents[i]),
            #[trigger] title_key(torrents[j]),
        )
}

/// Every key in `torrents` is at or before `key`.
pub open spec fn all_at_or_before(torrents: Seq<Torrent>, key: Seq<char>) -> bool {
    forall|i: int| 0 <= i < torrents.len() ==> chars_le(#[trigger] title_key(torrents[i]), key)
}

proof fn lemma_insert_bounded(sorted: Seq<Torrent>, t: Torrent, key: Seq<char>)
    requires
        all_at_or_before(sorted, key),
        chars_le(title_key(t), key),
    ensures
        all_at_or_before(insert_by_title(sorted, t), key),
    decreases sorted.len(),
{
    if sorted.len() > 0 && !chars_le(title_key(sorted.last()), title_key(t)) {
        lemma_insert_bounded(sorted.drop_last(), t, key);
    }
}

proof fn lemma_insert_sorted(sorted: Seq<Torrent>, t: Torrent)
    requires
        is_sorted_by_title(sorted),
    ensures
        is_sorted_by_title(insert_by_title(sorted, t)),
    decreases sorted.len(),
{
    if sorted.len() > 0 {
        let last = sorted.last();
        let init = sorted.drop_last();
        if chars_le(title_key(last), title_key(t)) {
            let out = sorted.push(t);
            assert forall|i: int, j: int| 0 <= i < j < out.len() implies chars_le(
                #[trigger] title_key(out[i]),
                #[trigger] title_key(out[j]),
            ) by {
                if j == out.len() - 1 {
                    if i < sorted.len() - 1 {
                        lemma_chars_le_transitive(
                            title_key(sorted[i]),
                            title_key(last),
                            title_key(t),
                        );
                    }
                } else {
                    assert(out[i] == sorted[i] && out[j] == sorted[j]);
                }
            }
        } else {
            lemma_insert_sorted(init, t);
            lemma_chars_le_total(title_key(last), title_key(t));
            assert forall|i: int| 0 <= i < init.len() implies chars_le(
                #[trigger] title_key(init[i]),
                title_key(last),
            ) by {
                lemma_chars_le_reflexive(title_key(last));
                assert(init[i] == sorted[i]);
                assert(sorted[sorted.len() - 1] == last);
            }
            lemma_insert_bounded(init, t, title_key(last));
            let mid = insert_by_title(init, t);
            let out = mid.push(last);
            assert forall|i: int, j: int| 0 <= i < j < out.len() implies chars_le(
                #[trigger] title_key(out[i]),
                #[trigger] title_key(out[j]),
            ) by {
                if j == out.len() - 1 {
                    assert(out[i] == mid[i]);
                } else {
                    assert(out[i] == mid[i] && out[j] == mid[j]);
                }
            }
        }
    }
}

proof fn lemma_insert_multiset(sorted: Seq<Torrent>, t: Torrent)
    ensures
        insert_by_title(sorted, t).to_multiset() == sorted.to_multiset().insert(t),
    decreases sorted.len(),
{
    broadcast use vstd::seq_lib::group_to_multiset_ensures;

    if sorted.len() == 0 {
        assert(seq![t] =~= Seq::<Torrent>::empty().push(t));
    } else if !chars_le(title_key(sorted.last()), title_key(t)) {
        let init = sorted.drop_last();
        lemma_insert_multiset(init, t);
        assert(init.push(sorted.last()) =~= sorted);
        assert(insert_by_title(sorted, t).to_multiset() =~= sorted.to_multiset().insert(t));
    }
}

proof fn lemma_insert_filter(sorted: Seq<Torrent>, t: Torrent, key: Seq<char>)
    ensures
        insert_by_title(sorted, t).filter(has_title_key(key)) == if title_key(t) == key {
            sorted.filter(has_title_key(key)).push(t)
        } else {
            sorted.filter(has_title_key(key))
        },
    decreases sorted.len(),
{
    let p = has_title_key(key);
    if sorted.len() == 0 {
        Seq::<Torrent>::empty().lemma_filter_push(t, p);
        assert(seq![t] =~= Seq::<Torrent>::empty().push(t));
        assert(sorted =~= Seq::<Torrent>::empty());
    } else {
        let last = sorted.last();
        let init = sorted.drop_last();
        assert(init.push(last) =~= sorted);
        if chars_le(title_key(last), title_key(t)) {
            sorted.lemma_filter_push(t, p);
        } else {
            lemma_insert_filter(init, t, key);
            insert_by_title(init, t).lemma_filter_push(last, p);
            init.lemma_filter_push(last, p);
            lemma_chars_le_reflexive(title_key(t));
        }
    }
}

/// The order of search results is sorted by lowercase title.
pub proof fn lemma_sorted_by_title_is_sorted(torrents: Seq<Torrent>)
    ensures
        is_sorted_by_title(sorted_by_title(torrents)),
    decreases torrents.len(),
{
    if torrents.len() > 0 {
        lemma_sorted_by_title_is_sorted(torrents.drop_last());
        lemma_insert_sorted(sorted_by_title(torrents.drop_last()), torrents.last());
    }
}

/// Ordering search results keeps every torrent, as often as it came.
pub proof fn lemma_sorted_by_title_is_permutation(torrents: Seq<Torrent>)
    ensures
        sorted_by_title(torrents).to_multiset() == torrents.to_multiset(),
    decreases torrents.len(),
{
    broadcast use vstd::seq_lib::group_to_multiset_ensures;

    if torrents.len() > 0 {
        lemma_sorted_by_title_is_permutation(torrents.drop_last());
        lemma_insert_multiset(sorted_by_title(torrents.drop_last()), torrents.last());
        assert(torrents.drop_last().push(torrents.last()) =~= torrents);
    }
}

/// Ordering search results is stable: the torrents that share a lowercase
/// title come out in the order in which they came in.
pub proof fn lemma_sorted_by_title_is_stable(torrents: Seq<Torrent>, key: Seq<char>)
    ensures
        sorted_by_title(torrents).filter(has_title_key(key)) == torrents.filter(
            has_title_key(key),
        ),
    decreases torrents.len(),
{
    if torrents.len() > 0 {
        let init = torrents.drop_last();
        lemma_sorted_by_title_is_stable(init, key);
        lemma_insert_filter(sorted_by_title(init), torrents.last(), key);
        init.lemma_filter_push(torrents.last(), has_title_key(key));
        assert(init.push(torrents.last()) =~= torrents);
    } else {
        assert(torrents.filter(has_title_key(key)) =~= torrents) by {
            reveal(Seq::filter);
        }
        assert(sorted_by_title(torrents) =~= torrents);
    }
}

/// In ordered search results, of two torrents whose lowercase titles first
/// differ at position `k`, the earlier one has the smaller code point there.
pub proof fn lemma_sorted_titles_by_code_point(torrents: Seq<Torrent>, i: int, j: int, k: int)
    requires
        0 <= i < j < sorted_by_title(torrents).len(),
        0 <= k < title_key(sorted_by_title(torrents)[i]).len(),
        k < title_key(sorted_by_title(torrents)[j]).len(),
        title_key(sorted_by_title(torrents)[i]).take(k) == title_key(
            sorted_by_title(torrents)[j],
        ).take(k),
        title_key(sorted_by_title(torrents)[i])[k] != title_key(sorted_by_title(torrents)[j])[k],
    ensures
        (title_key(sorted_by_title(torrents)[i])[k] as u32) < (title_key(
            sorted_by_title(torrents)[j],
        )[k] as u32),
{
    lemma_sorted_by_title_is_sorted(torrents);
    let a = title_key(sorted_by_title(torrents)[i]);
    let b = title_key(sorted_by_title(torrents)[j]);
    assert(chars_le(a, b));
    lemma_chars_le_first_difference(a, b, k);
}

/// Orders torrents by lowercase title, keeping the order of torrents whose
/// lowercase titles are equal.
pub fn sort_by_title(torrents: Vec<Torrent>) -> (sorted: Vec<Torrent>)
    ensures
        sorted@ == sorted_by_title(torrents@),
        is_sorted_by_title(sorted@),
        sorted@.to_multiset() == torrents@.to_multiset(),
        forall|key: Seq<char>|
            #![trigger has_title_key(key)]
            sorted@.filter(has_title_key(key)) == torrents@.filter(has_title_key(key)),
{
    proof {
        lemma_sorted_by_title_is_sorted(torrents@);
        lemma_sorted_by_title_is_permutation(torrents@);
        assert forall|key: Seq<char>| #![trigger has_title_key(key)]
            sorted_by_title(torrents@).filter(has_title_key(key)) == torrents@.filter(
                has_title_key(key),
            ) by {
            lemma_sorted_by_title_is_stable(torrents@, key);
        }
    }
    let ghost input = torrents@;
    assert(input.len() == torrents.len());
    let mut rest = torrents;
    let mut sorted: Vec<Torrent> = Vec::new();
    let mut keys: Vec<Vec<char>> = Vec::new();
    let mut done: usize = 0;
    assert(input.take(0) =~= Seq::<Torrent>::empty());
    while rest.len() > 0
        invariant
            done <= input.len(),
            input.len() <= usize::MAX,
            rest@ == input.skip(done as int),
            sorted@ == sorted_by_title(input.take(done as int)),
            keys@.len() == sorted@.len(),
            forall|k: int| 0 <= k < keys@.len() ==> #[trigger] keys@[k]@ == title_key(sorted@[k]),
        decreases rest.len(),
    {
        assert(rest@.len() == input.len() - done);
        let t = rest.remove(0);
        let ghost prefix = input.take(done as int);
        assert(input.take(done + 1) =~= prefix.push(t));
        assert(input.take(done + 1).drop_last() =~= prefix);
        let lowered = to_lowercase(t.title.as_str());
        let key = chars_of(lowered.as_str());
        let ghost before = sorted@;
        let mut j: usize = sorted.len();
        assert(before.take(j as int) =~= before);
        assert(before.skip(j as int) =~= Seq::<Torrent>::empty());
        while j > 0 && !chars_at_or_before(&keys[j - 1], &key)
            invariant
                j <= before.len(),
                sorted@ == before,
                keys@.len() == before.len(),
                forall|k: int| 0 <= k < keys@.len() ==> #[trigger] keys@[k]@ == title_key(before[k]),
                key@ == title_key(t),
                insert_by_title(before, t) == insert_by_title(before.take(j as int), t)
                    + before.skip(j as int),
                j > 0 ==> before[j - 1] == before.take(j as int).last(),
            decreases j,
        {
            let ghost front = before.take(j as int);
            assert(front.drop_last() =~= before.take(j - 1));
            assert(before.skip(j - 1) =~= seq![before[j - 1]] + before.skip(j as int));
            assert(insert_by_title(before.take(j - 1), t).push(before[j - 1]) + before.skip(
                j as int,
            ) =~= insert_by_title(before.take(j - 1), t) + before.skip(j - 1));
            j = j - 1;
        }
        proof {
            let front = before.take(j as int);
            if j > 0 {
                assert(insert_by_title(front, t) == front.push(t));
            }
            assert(insert_by_title(front, t) + before.skip(j as int) =~= before.insert(
                j as int,
                t,
            ));
        }
        sorted.insert(j, t);
        keys.insert(j, key);
        done = done + 1;
        assert(input.skip(done as int) =~= rest@) by {
            assert(input.skip(done - 1).drop_first() =~= input.skip(done as int));
        }
    }
    assert(input.take(done as int) =~= input);
    sorted
}

} // verus!
