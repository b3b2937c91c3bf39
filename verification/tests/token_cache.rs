use anirena::time::{UtcTime, MAX_TIMESTAMP, MIN_TIMESTAMP};
use anirena::token::{TokenCache, TokenCacheState};
use anirena::{AnirenaClient, TokenResponse, Torrent};

fn cache(token: &str, secs: i64, nanos: u32) -> TokenCache {
    TokenCache { bearer_token: token.to_string(), expires_at: UtcTime { secs, nanos } }
}

fn response(token: &str, expires_in: u32) -> TokenResponse {
    TokenResponse { token: token.to_string(), token_type: "Bearer".to_string(), expires_in }
}

#[test]
fn expired_cache_is_reported_expired() {
    let now = UtcTime { secs: 1_000, nanos: 0 };
    assert!(matches!(cache("old", 700, 0).state_at(&now), TokenCacheState::Expired));
    assert!(matches!(cache("edge", 1_000, 0).state_at(&now), TokenCacheState::Expired));
}

#[test]
fn valid_cache_is_kept_unchanged() {
    let now = UtcTime { secs: 1_000, nanos: 500 };
    match cache("fresh", 1_000, 501).state_at(&now) {
        TokenCacheState::Valid(kept) => {
            assert_eq!(kept.bearer_token, "fresh");
            assert_eq!(kept.expires_at, UtcTime { secs: 1_000, nanos: 501 });
        }
        _ => panic!("a cache that expires later should be valid"),
    }
}

#[test]
fn cache_in_the_far_future_is_valid_now() {
    let state = cache("future", MAX_TIMESTAMP, 0).state();
    assert!(matches!(state, TokenCacheState::Valid(_)));
    let state = cache("past", 0, 0).state();
    assert!(matches!(state, TokenCacheState::Expired));
}

#[test]
fn client_keeps_only_a_valid_loaded_cache() {
    let client = AnirenaClient::new("key", Some(TokenCacheState::Valid(cache("t", MAX_TIMESTAMP, 0))));
    assert_eq!(client.api_key, "key");
    assert!(!client.token_expired());
    assert_eq!(client.cached_token(), Some("t".to_string()));

    let client = AnirenaClient::new("key", Some(TokenCacheState::Expired));
    assert!(client.token_expired());
    assert_eq!(client.cached_token(), None);

    let client = AnirenaClient::new("key", None);
    assert!(client.token_expired());
    let client = AnirenaClient::new("key", Some(TokenCacheState::Missing));
    assert!(client.token_expired());
}

#[test]
fn cached_token_follows_expiry() {
    let client = AnirenaClient::new("key", Some(TokenCacheState::Valid(cache("t", 2_000, 0))));
    let before = UtcTime { secs: 1_999, nanos: 999_999_999 };
    let at = UtcTime { secs: 2_000, nanos: 0 };
    assert_eq!(client.cached_token_at(&before), Some("t".to_string()));
    assert!(!client.token_expired_at(&before));
    assert_eq!(client.cached_token_at(&at), None);
    assert!(client.token_expired_at(&at));
}

#[test]
fn stored_token_expires_after_its_lifetime() {
    let mut client = AnirenaClient::new("key", None);
    let now = UtcTime { secs: 1_700_000_000, nanos: 42 };
    let stored = client.store_token_at(response("fresh", 3_600), &now);
    assert_eq!(stored.bearer_token, "fresh");
    assert_eq!(stored.expires_at, UtcTime { secs: 1_700_003_600, nanos: 42 });
    assert_eq!(client.cached_token_at(&now), Some("fresh".to_string()));
    assert_eq!(client.cached_token_at(&stored.expires_at), None);
}

#[test]
fn stored_token_may_expire_at_the_last_representable_second() {
    let mut client = AnirenaClient::new("key", None);
    let now = UtcTime { secs: MAX_TIMESTAMP - 10, nanos: 999_999_999 };
    let stored = client.store_token_at(response("late", 10), &now);
    assert_eq!(stored.expires_at, UtcTime { secs: MAX_TIMESTAMP, nanos: 999_999_999 });
}

#[test]
fn stored_token_is_served_from_the_cache() {
    let mut client = AnirenaClient::new("key", None);
    let stored = client.store_token(response("fresh", 3_600)).expect("expiry fits");
    assert_eq!(stored.bearer_token, "fresh");
    assert!(!client.token_expired());
    assert_eq!(client.cached_token(), Some("fresh".to_string()));
}

#[test]
fn token_with_no_lifetime_is_expired() {
    let mut client = AnirenaClient::new("key", None);
    let now = UtcTime { secs: 10, nanos: 0 };
    client.store_token_at(response("gone", 0), &now);
    assert!(client.token_expired_at(&now));
}

fn torrent_created(created_at_unix: u64) -> Torrent {
    Torrent {
        id: uuid::Uuid::nil(),
        title: String::new(),
        info_hash_v1: None,
        info_hash_v2: None,
        size_fmt: String::new(),
        completed: 0,
        seeders: 0,
        leechers: 0,
        languages: Vec::new(),
        comment_count: 0,
        created_at: String::new(),
        created_at_unix,
        cat_slug: None,
        sub_slug: None,
        group_name: None,
        uploader: None,
        magnet: String::new(),
    }
}

#[test]
fn created_at_reads_the_unix_timestamp() {
    assert_eq!(
        torrent_created(1_431_648_000).created_at(),
        Some(UtcTime { secs: 1_431_648_000, nanos: 0 })
    );
    assert_eq!(
        torrent_created(MAX_TIMESTAMP as u64).created_at(),
        Some(UtcTime { secs: MAX_TIMESTAMP, nanos: 0 })
    );
    assert_eq!(torrent_created(MAX_TIMESTAMP as u64 + 1).created_at(), None);
}

#[test]
fn created_at_wraps_large_timestamps_like_a_cast() {
    assert_eq!(torrent_created(u64::MAX).created_at(), Some(UtcTime { secs: -1, nanos: 0 }));
    assert_eq!(
        torrent_created(MIN_TIMESTAMP as u64).created_at(),
        Some(UtcTime { secs: MIN_TIMESTAMP, nanos: 0 })
    );
    assert_eq!(torrent_created((MIN_TIMESTAMP - 1) as u64).created_at(), None);
    assert_eq!(torrent_created(i64::MAX as u64).created_at(), None);
}
