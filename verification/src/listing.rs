use vstd::prelude::*;

use crate::text::{decimal, digits_value, lemma_decimal_denotes, push_decimal};
use crate::torrent::Torrent;

verus! {

/// The release group shown before a title: `[group] `, or nothing.
pub open spec fn group_tag_text(group_name: Option<String>) -> Seq<char> {
    match group_name {
        Some(group) => seq!['['] + group@ + seq![']', ' '],
        None => Seq::empty(),
    }
}

/// The line that lists a search result:
/// `{group tag} {title}, Size: {size}, Seeders: {seeders}, Leechers: {leechers}`.
pub open spec fn summary_text(t: Torrent) -> Seq<char> {
    group_tag_text(t.group_name) + seq![' '] + t.title@ + ", Size: "@ + t.size_fmt@
        + ", Seeders: "@ + decimal(t.seeders as nat) + ", Leechers: "@ + decimal(
        t.leechers as nat,
    )
}

/// The label of a search result in the selection prompt: `{title} - {size}`.
pub open spec fn label_text(t: Torrent) -> Seq<char> {
    t.title@ + " - "@ + t.size_fmt@
}

/// The line that lists a torrent is its group tag, a space, its title, then
/// its size, its seeders and its leechers, each after its label; the number
/// after `, Leechers: ` at the end of the line reads back as the leechers.
pub proof fn lemma_summary_fields(t: Torrent)
    ensures
        summary_text(t) == group_tag_text(t.group_name) + seq![' '] + t.title@ + ", Size: "@
            + t.size_fmt@ + ", Seeders: "@ + decimal(t.seeders as nat) + ", Leechers: "@ + decimal(
            t.leechers as nat,
        ),
        ({
            let line = summary_text(t);
            let count = decimal(t.leechers as nat).len();
            &&& line.len() >= count
            &&& digits_value(line.skip(line.len() - count)) == t.leechers
            &&& line.skip(line.len() - count) == decimal(t.leechers as nat)
        }),
        ({
            let line = summary_text(t);
            let tail = ", Leechers: "@ + decimal(t.leechers as nat);
            &&& line.len() >= tail.len()
            &&& line.skip(line.len() - tail.len()) == tail
        }),
{
    lemma_decimal_denotes(t.leechers as nat);
    let line = summary_text(t);
    let tail = ", Leechers: "@ + decimal(t.leechers as nat);
    let head = group_tag_text(t.group_name) + seq![' '] + t.title@ + ", Size: "@ + t.size_fmt@
        + ", Seeders: "@ + decimal(t.seeders as nat);
    assert(line =~= head + tail);
    assert(line.skip(line.len() - tail.len()) =~= tail);
    let d = decimal(t.leechers as nat);
    assert(line =~= (head + ", Leechers: "@) + d);
    assert(line.skip(line.len() - d.len()) =~= d);
}

/// The release group tag shown before a title.
pub fn group_tag(group_name: &Option<String>) -> (tag: String)
    ensures
        tag@ == group_tag_text(*group_name),
{
    match group_name {
        Some(group) => {
            let mut tag = String::from_str("[");
            tag.append(group.as_str());
            tag.append("] ");
            proof {
                reveal_strlit("[");
                reveal_strlit("] ");
            }
            assert(tag@ =~= group_tag_text(*group_name));
            tag
        },
        None => String::new(),
    }
}

/// The line that lists a search result.
pub fn torrent_summary(t: &Torrent) -> (line: String)
    ensures
        line@ == summary_text(*t),
{
    let mut line = group_tag(&t.group_name);
    line.append(" ");
    line.append(t.title.as_str());
    line.append(", Size: ");
    line.append(t.size_fmt.as_str());
    line.append(", Seeders: ");
    push_decimal(&mut line, t.seeders as u64);
    line.append(", Leechers: ");
    push_decimal(&mut line, t.leechers as u64);
    proof {
        reveal_strlit(" ");
    }
    assert(line@ =~= summary_text(*t));
    line
}

/// The label of a search result in the selection prompt.
pub fn selection_label(t: &Torrent) -> (label: String)
    ensures
        label@ == label_text(*t),
{
    let mut label = String::from_str(t.title.as_str());
    label.append(" - ");
    label.append(t.size_fmt.as_str());
    label
}

} // verus!
