use vstd::prelude::*;

use crate::cli::CLiOpts;
use crate::torrent::Torrent;

verus! {

/// The qBittorrent connection settings and the defaults for added torrents.
pub struct QbtClient {
    pub base_url: String,
    pub username: String,
    pub password: String,
    pub category: Option<String>,
    pub auto_start: bool,
}

fn clone_option_string(s: &Option<String>) -> (copy: Option<String>)
    ensures
        copy == *s,
{
    match s {
        Some(v) => Some(v.clone()),
        None => None,
    }
}

impl<'a> From<&'a CLiOpts> for QbtClient {
    fn from(opts: &'a CLiOpts) -> (client: QbtClient) {
        QbtClient {
            base_url: opts.qbt_base_url.clone(),
            username: opts.qbt_username.clone(),
            password: opts.qbt_password.clone(),
            category: clone_option_string(&opts.qbt_category),
            auto_start: opts.qbt_auto_start,
        }
    }
}

impl<'a> vstd::std_specs::convert::FromSpecImpl<&'a CLiOpts> for QbtClient {
    open spec fn obeys_from_spec() -> bool {
        true
    }

    open spec fn from_spec(opts: &'a CLiOpts) -> QbtClient {
        QbtClient {
            base_url: opts.qbt_base_url,
            username: opts.qbt_username,
            password: opts.qbt_password,
            category: opts.qbt_category,
            auto_start: opts.qbt_auto_start,
        }
    }
}

/// How torrents are handed to qBittorrent: the category, whether they are
/// added stopped (`"true"` or `"false"`), and their magnet links.
pub struct TorrentAddition {
    pub category: Option<String>,
    pub stopped: String,
    pub magnets: Vec<String>,
}

/// The magnet links of the results whose index was selected, in the order of
/// the results.
pub open spec fn selected_magnets(results: Seq<Torrent>, selected: Seq<usize>) -> Seq<Seq<char>>
    decreases results.len(),
{
    if results.len() == 0 {
        Seq::empty()
    } else {
        let earlier = selected_magnets(results.drop_last(), selected);
        if selected.contains((results.len() - 1) as usize) {
            earlier.push(results.last().magnet@)
        } else {
            earlier
        }
    }
}

/// The text of a boolean, as `bool::to_string` writes it.
pub open spec fn bool_text(b: bool) -> Seq<char> {
    if b {
        seq!['t', 'r', 'u', 'e']
    } else {
        seq!['f', 'a', 'l', 's', 'e']
    }
}

fn contains_index(selected: &[usize], index: usize) -> (found: bool)
    ensures
        found == selected@.contains(index),
{
    for i in 0..selected.len()
        invariant
            forall|k: int| 0 <= k < i ==> selected@[k] != index,
    {
        if selected[i] == index {
            assert(selected@[i as int] == index);
            return true;
        }
    }
    false
}

fn bool_to_text(b: bool) -> (text: String)
    ensures
        text@ == bool_text(b),
{
    let mut text = String::new();
    if b {
        crate::text::push_char(&mut text, 't');
        crate::text::push_char(&mut text, 'r');
        crate::text::push_char(&mut text, 'u');
        crate::text::push_char(&mut text, 'e');
    } else {
        crate::text::push_char(&mut text, 'f');
        crate::text::push_char(&mut text, 'a');
        crate::text::push_char(&mut text, 'l');
        crate::text::push_char(&mut text, 's');
        crate::text::push_char(&mut text, 'e');
    }
    assert(text@ =~= bool_text(b));
    text
}

impl QbtClient {
    /// What to add to qBittorrent for the selected search results: this
    /// client's category, stopped unless torrents start on their own, and the
    /// magnet links of the selected results in the order of the results.
    pub fn torrent_addition(&self, results: &[Torrent], selected: &[usize]) -> (addition:
        TorrentAddition)
        ensures
            addition.category == self.category,
            addition.stopped@ == bool_text(!self.auto_start),
            addition.magnets@.map_values(|m: String| m@) == selected_magnets(results@, selected@),
    {
        let mut magnets: Vec<String> = Vec::new();
        for i in 0..results.len()
            invariant
                magnets@.map_values(|m: String| m@) == selected_magnets(
                    results@.take(i as int),
                    selected@,
                ),
        {
            let ghost before = results@.take(i as int);
            assert(results@.take(i + 1).drop_last() =~= before);
            if contains_index(selected, i) {
                magnets.push(results[i].magnet.clone());
            }
            assert(magnets@.map_values(|m: String| m@) =~= selected_magnets(
                results@.take(i + 1),
                selected@,
            ));
        }
        assert(results@.take(results.len() as int) =~= results@);
        TorrentAddition {
            category: clone_option_string(&self.category),
            stopped: bool_to_text(!self.auto_start),
            magnets,
        }
    }
}

} // verus!
