use anirena::api::{search_request, token_request};
use anirena::cli::CLiOpts;
use anirena::listing::{group_tag, selection_label, torrent_summary};
use anirena::qbt::QbtClient;
use anirena::{Torrent, API_BASE_URL};

#[test]
fn token_request_carries_the_api_key() {
    let request = token_request("secret-key");
    assert_eq!(request.url, "https://www.anirena.com/api/v1/auth/token");
    assert_eq!(request.authorization, "ApiKey secret-key");
    assert_eq!(API_BASE_URL, "https://www.anirena.com");
}

#[test]
fn search_request_carries_the_bearer_token() {
    let request = search_request("tok");
    assert_eq!(request.url, "https://www.anirena.com/api/v1/torrents/search");
    assert_eq!(request.authorization, "Bearer tok");
}

fn torrent(title: &str, group: Option<&str>, magnet: &str) -> Torrent {
    Torrent {
        id: uuid::Uuid::nil(),
        title: title.to_string(),
        info_hash_v1: None,
        info_hash_v2: None,
        size_fmt: "1.4 GiB".to_string(),
        completed: 3,
        seeders: 1234567,
        leechers: 0,
        languages: vec!["en".to_string()],
        comment_count: 0,
        created_at: String::new(),
        created_at_unix: 0,
        cat_slug: None,
        sub_slug: None,
        group_name: group.map(|g| g.to_string()),
        uploader: None,
        magnet: magnet.to_string(),
    }
}

#[test]
fn listing_lines_show_group_size_and_peers() {
    let t = torrent("Show - 01", Some("Subs"), "m1");
    assert_eq!(
        torrent_summary(&t),
        "[Subs]  Show - 01, Size: 1.4 GiB, Seeders: 1234567, Leechers: 0"
    );
    let t = torrent("Show - 02", None, "m2");
    assert_eq!(torrent_summary(&t), " Show - 02, Size: 1.4 GiB, Seeders: 1234567, Leechers: 0");
    assert_eq!(selection_label(&t), "Show - 02 - 1.4 GiB");
    assert_eq!(group_tag(&None), "");
    assert_eq!(group_tag(&Some("G".to_string())), "[G] ");
}

fn opts(auto_start: bool) -> CLiOpts {
    CLiOpts {
        api_key: "k".to_string(),
        qbt_base_url: "http://localhost:8080".to_string(),
        qbt_username: "admin".to_string(),
        qbt_password: "pw".to_string(),
        qbt_category: Some("anime".to_string()),
        qbt_auto_start: auto_start,
        pages: None,
        add: true,
        search_term: vec!["x".to_string()],
    }
}

#[test]
fn qbt_client_takes_the_connection_options() {
    let client = QbtClient::from(&opts(true));
    assert_eq!(client.base_url, "http://localhost:8080");
    assert_eq!(client.username, "admin");
    assert_eq!(client.password, "pw");
    assert_eq!(client.category, Some("anime".to_string()));
    assert!(client.auto_start);
}

#[test]
fn selected_results_are_added_in_result_order() {
    let results = vec![torrent("a", None, "m0"), torrent("b", None, "m1"), torrent("c", None, "m2")];
    let addition = QbtClient::from(&opts(false)).torrent_addition(&results, &[2, 0]);
    assert_eq!(addition.category, Some("anime".to_string()));
    assert_eq!(addition.stopped, "true");
    assert_eq!(addition.magnets, vec!["m0".to_string(), "m2".to_string()]);
    let addition = QbtClient::from(&opts(true)).torrent_addition(&results, &[]);
    assert_eq!(addition.stopped, "false");
    assert!(addition.magnets.is_empty());
}
