use vstd::prelude::*;

use crate::text::joined;
use crate::torrent::{sort_by_title, sorted_by_title, SearchResults, Torrent};

verus! {

/// The page that follows `current_page` in a search that was asked to stop
/// at `requested_last_page`, or `None` when the search is done.
pub open spec fn spec_next_search_page(
    current_page: u32,
    total_pages: u32,
    requested_last_page: Option<u32>,
) -> Option<u32> {
    match requested_last_page {
        Some(last_page) => if current_page < last_page && current_page < total_pages {
            Some((current_page + 1) as u32)
        } else {
            None
        },
        None => None,
    }
}

/// Decides which page a search fetches next: the page after the current one,
/// as long as the caller asked for more pages and the server has more.
pub fn next_search_page(
    current_page: u32,
    total_pages: u32,
    requested_last_page: Option<u32>,
) -> (next: Option<u32>)
    ensures
        next == spec_next_search_page(current_page, total_pages, requested_last_page),
{
    match requested_last_page {
        Some(last_page) => {
            if current_page < last_page && current_page < total_pages {
                current_page.checked_add(1)
            } else {
                None
            }
        },
        None => None,
    }
}

/// A next page is only ever the page after the current one, within the last
/// page that the caller asked for and the pages that the server has; without
/// such a last page no further page is fetched.
pub proof fn lemma_next_search_page_bounds(
    current_page: u32,
    total_pages: u32,
    requested_last_page: Option<u32>,
)
    ensures
        spec_next_search_page(current_page, total_pages, requested_last_page) matches Some(next)
            ==> {
            &&& requested_last_page matches Some(last) && next <= last
            &&& next == current_page + 1
            &&& next <= total_pages
        },
        requested_last_page is None ==> spec_next_search_page(
            current_page,
            total_pages,
            requested_last_page,
        ) is None,
{
}

/// While both the requested last page and the server's last page lie ahead,
/// the search goes on to the next page.
pub proof fn lemma_next_search_page_complete(current_page: u32, total_pages: u32, last_page: u32)
    requires
        current_page < last_page,
        current_page < total_pages,
    ensures
        spec_next_search_page(current_page, total_pages, Some(last_page)) == Some(
            (current_page + 1) as u32,
        ),
{
}

/// The search stops exactly when it has reached the requested last page or
/// the server's last page, or when no last page was requested.
pub proof fn lemma_next_search_page_stops(
    current_page: u32,
    total_pages: u32,
    requested_last_page: Option<u32>,
)
    ensures
        spec_next_search_page(current_page, total_pages, requested_last_page) is None <==> (
        requested_last_page is None || current_page >= requested_last_page->0 || current_page
            >= total_pages),
{
}

/// What a search session reports after it has recorded a page.
pub struct PageReport {
    /// The page to fetch next, or `None` when the search is done.
    pub next_page: Option<u32>,
    /// The page held no torrent.
    pub no_results: bool,
    /// The search is done though the server has more pages.
    pub more_available: bool,
}

/// The state of a search that runs over several pages: the page to fetch,
/// the last page that the caller asked for, and the torrents found so far.
pub struct SearchSession {
    requested_page: Option<u32>,
    last_page: Option<u32>,
    results: Vec<Torrent>,
    finished: bool,
}

impl SearchSession {
    /// The page that the next request asks for (`None`: the server's default).
    pub closed spec fn spec_requested_page(&self) -> Option<u32> {
        self.requested_page
    }

    /// The last page that the caller asked for.
    pub closed spec fn spec_last_page(&self) -> Option<u32> {
        self.last_page
    }

    /// The torrents found so far, in the order the pages gave them.
    pub closed spec fn spec_results(&self) -> Seq<Torrent> {
        self.results@
    }

    /// No further page is to be fetched.
    pub closed spec fn spec_finished(&self) -> bool {
        self.finished
    }

    /// Starts a search at `page` that goes on up to page `pages`, if given.
    pub fn new(page: Option<u32>, pages: Option<u32>) -> (session: SearchSession)
        ensures
            session.spec_requested_page() == page,
            session.spec_last_page() == pages,
            session.spec_results() == Seq::<Torrent>::empty(),
            !session.spec_finished(),
    {
        SearchSession { requested_page: page, last_page: pages, results: Vec::new(), finished: false }
    }

    /// The page that the next request asks for.
    pub fn requested_page(&self) -> (page: Option<u32>)
        ensures
            page == self.spec_requested_page(),
    {
        self.requested_page
    }

    /// Whether the search is done.
    pub fn is_finished(&self) -> (finished: bool)
        ensures
            finished == self.spec_finished(),
    {
        self.finished
    }

    /// Records a page of results: keeps its torrents and decides whether and
    /// which page comes next.
    pub fn record_page(&mut self, page: SearchResults) -> (report: PageReport)
        ensures
            report.next_page == spec_next_search_page(
                page.page,
                page.total_pages,
                old(self).spec_last_page(),
            ),
            report.no_results == (page.torrents@.len() == 0),
            report.more_available == (report.next_page is None && page.page < page.total_pages),
            final(self).spec_results() == old(self).spec_results() + page.torrents@,
            final(self).spec_last_page() == old(self).spec_last_page(),
            final(self).spec_finished() == report.next_page is None,
            final(self).spec_requested_page() == if report.next_page is Some {
                report.next_page
            } else {
                old(self).spec_requested_page()
            },
    {
        let current_page: u32 = page.page;
        let total_pages: u32 = page.total_pages;
        let no_results = page.torrents.len() == 0;
        let mut torrents = page.torrents;
        self.results.append(&mut torrents);
        let next_page = next_search_page(current_page, total_pages, self.last_page);
        let more_available = next_page.is_none() && current_page < total_pages;
        match next_page {
            Some(next) => {
                self.requested_page = Some(next);
                self.finished = false;
            },
            None => {
                self.finished = true;
            },
        }
        PageReport { next_page, no_results, more_available }
    }

    /// Ends the search: every torrent found, ordered by lowercase title.
    pub fn into_results(self) -> (results: Vec<Torrent>)
        ensures
            results@ == sorted_by_title(self.spec_results()),
    {
        sort_by_title(self.results)
    }
}

/// The body of a search request: the search terms joined by spaces, and the
/// page to return if one is asked for.
pub struct SearchPayload {
    pub q: String,
    pub page: Option<u32>,
}

/// The views of `terms`, as character sequences.
pub open spec fn term_views(terms: Seq<String>) -> Seq<Seq<char>> {
    terms.map_values(|t: String| t@)
}

/// The search request body for `terms` and `page`.
pub fn search_payload(terms: &[String], page: Option<u32>) -> (payload: SearchPayload)
    ensures
        payload.q@ == joined(term_views(terms@), seq![' ']),
        payload.page == page,
{
    let mut q = String::new();
    let ghost views = term_views(terms@);
    assert(views.take(0) =~= Seq::<Seq<char>>::empty());
    for i in 0..terms.len()
        invariant
            views == term_views(terms@),
            q@ == joined(views.take(i as int), seq![' ']),
    {
        let ghost before = views.take(i as int);
        assert(views.take(i + 1).drop_last() =~= before);
        if i > 0 {
            crate::text::push_char(&mut q, ' ');
        }
        q.append(terms[i].as_str());
        assert(views.take(i + 1) =~= before.push(terms@[i as int]@));
        proof {
            if i == 0 {
                assert(views.take(1)[0] == terms@[0]@);
            }
        }
    }
    assert(views.take(terms.len() as int) =~= views);
    SearchPayload { q, page }
}

} // verus!
