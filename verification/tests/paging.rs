use anirena::search::{next_search_page, SearchSession};
use anirena::{SearchResults, Torrent};

#[test]
fn search_continues_until_the_requested_page() {
    assert_eq!(next_search_page(1, 5, Some(3)), Some(2));
    assert_eq!(next_search_page(2, 5, Some(3)), Some(3));
    assert_eq!(next_search_page(3, 5, Some(3)), None);
}

#[test]
fn search_stops_at_the_last_available_page() {
    assert_eq!(next_search_page(2, 3, Some(5)), Some(3));
    assert_eq!(next_search_page(3, 3, Some(5)), None);
}

#[test]
fn search_does_not_continue_without_a_page_limit() {
    assert_eq!(next_search_page(1, 5, None), None);
}

#[test]
fn search_stops_at_the_largest_page_number() {
    assert_eq!(next_search_page(u32::MAX, u32::MAX, Some(u32::MAX)), None);
    assert_eq!(next_search_page(u32::MAX - 1, u32::MAX, Some(u32::MAX)), Some(u32::MAX));
}

fn torrent(title: &str) -> Torrent {
    Torrent {
        id: uuid::Uuid::nil(),
        title: title.to_string(),
        info_hash_v1: None,
        info_hash_v2: None,
        size_fmt: "1 GiB".to_string(),
        completed: 0,
        seeders: 1,
        leechers: 2,
        languages: Vec::new(),
        comment_count: 0,
        created_at: String::new(),
        created_at_unix: 0,
        cat_slug: None,
        sub_slug: None,
        group_name: None,
        uploader: None,
        magnet: format!("magnet:?dn={title}"),
    }
}

fn page(page: u32, total_pages: u32, titles: &[&str]) -> SearchResults {
    SearchResults {
        total: 0,
        page,
        per_page: 50,
        total_pages,
        from: 0,
        to: 0,
        torrents: titles.iter().map(|t| torrent(t)).collect(),
    }
}

#[test]
fn search_session_collects_pages_and_orders_titles() {
    let mut session = SearchSession::new(None, Some(2));
    assert_eq!(session.requested_page(), None);
    assert!(!session.is_finished());

    let report = session.record_page(page(1, 4, &["beta", "Alpha"]));
    assert_eq!(report.next_page, Some(2));
    assert!(!report.no_results);
    assert!(!report.more_available);
    assert_eq!(session.requested_page(), Some(2));
    assert!(!session.is_finished());

    let report = session.record_page(page(2, 4, &["alpha", "Gamma"]));
    assert_eq!(report.next_page, None);
    assert!(report.more_available);
    assert!(session.is_finished());

    let titles: Vec<String> = session.into_results().into_iter().map(|t| t.title).collect();
    assert_eq!(titles, vec!["Alpha", "alpha", "beta", "Gamma"]);
}

#[test]
fn search_session_reports_an_empty_page() {
    let mut session = SearchSession::new(Some(3), None);
    assert_eq!(session.requested_page(), Some(3));
    let report = session.record_page(page(3, 3, &[]));
    assert!(report.no_results);
    assert_eq!(report.next_page, None);
    assert!(!report.more_available);
    assert!(session.is_finished());
    assert!(session.into_results().is_empty());
}

#[test]
fn sort_by_title_is_stable_and_ignores_case() {
    let mut input = vec![torrent("b"), torrent("A"), torrent("a"), torrent("B"), torrent("")];
    input[1].seeders = 10;
    input[2].seeders = 20;
    let sorted = anirena::torrent::sort_by_title(input);
    let titles: Vec<&str> = sorted.iter().map(|t| t.title.as_str()).collect();
    assert_eq!(titles, vec!["", "A", "a", "b", "B"]);
    assert_eq!(sorted[1].seeders, 10);
    assert_eq!(sorted[2].seeders, 20);
}

#[test]
fn sort_by_title_orders_by_code_point_after_lowercasing() {
    let input = vec![torrent("Zebra"), torrent("ábc"), torrent("abd"), torrent("ab")];
    let sorted = anirena::torrent::sort_by_title(input);
    let titles: Vec<&str> = sorted.iter().map(|t| t.title.as_str()).collect();
    assert_eq!(titles, vec!["ab", "abd", "Zebra", "ábc"]);
}

#[test]
fn search_payload_joins_terms_with_spaces() {
    let terms = vec!["one".to_string(), "piece".to_string(), "1080p".to_string()];
    let payload = anirena::search::search_payload(&terms, Some(4));
    assert_eq!(payload.q, "one piece 1080p");
    assert_eq!(payload.page, Some(4));
    let payload = anirena::search::search_payload(&[], None);
    assert_eq!(payload.q, "");
    assert_eq!(payload.page, None);
}
