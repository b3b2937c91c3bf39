use vstd::prelude::*;

use crate::time::{checked_add_seconds, utc_now, UtcTime, MAX_TIMESTAMP};
use crate::torrent::TokenResponse;

verus! {

/// A bearer token and the instant at which it expires, as kept between runs.
pub struct TokenCache {
    pub bearer_token: String,
    pub expires_at: UtcTime,
}

/// What a stored token cache turned out to be.
pub enum TokenCacheState {
    /// There was no cache.
    Missing,
    /// The cached token has expired.
    Expired,
    /// The cached token can still be used.
    Valid(TokenCache),
}

impl TokenCache {
    /// The token has expired at `now`: it expires at or before `now`.
    pub open spec fn spec_is_expired_at(&self, now: UtcTime) -> bool {
        self.expires_at.spec_at_or_before(now)
    }

    /// What a cache read at `now` is.
    pub open spec fn spec_state_at(self, now: UtcTime) -> TokenCacheState {
        if self.spec_is_expired_at(now) {
            TokenCacheState::Expired
        } else {
            TokenCacheState::Valid(self)
        }
    }

    /// The cache that a token response received at `now` makes.
    pub open spec fn spec_from_response(response: TokenResponse, now: UtcTime) -> TokenCache {
        TokenCache {
            bearer_token: response.token,
            expires_at: now.plus_seconds(response.expires_in as int),
        }
    }

    /// Whether the token has expired at `now`.
    pub fn is_expired_at(&self, now: &UtcTime) -> (expired: bool)
        ensures
            expired == self.spec_is_expired_at(*now),
    {
        self.expires_at.at_or_before(now)
    }

    /// Classifies a cache read at `now`: expired, or valid and unchanged.
    pub fn state_at(self, now: &UtcTime) -> (state: TokenCacheState)
        ensures
            state == self.spec_state_at(*now),
    {
        if self.is_expired_at(now) {
            TokenCacheState::Expired
        } else {
            TokenCacheState::Valid(self)
        }
    }

    /// Classifies a cache at the current time.
    pub fn state(self) -> (state: TokenCacheState)
        ensures
            exists|now: UtcTime| now.is_valid() && state == self.spec_state_at(now),
    {
        let now = utc_now();
        self.state_at(&now)
    }

    /// A copy of the cache.
    fn duplicate(&self) -> (copy: TokenCache)
        ensures
            copy == *self,
    {
        TokenCache { bearer_token: self.bearer_token.clone(), expires_at: self.expires_at }
    }
}

/// The client's account state: the API key and the token cached for it.
pub struct AnirenaClient {
    pub api_key: String,
    token_cache: Option<TokenCache>,
}

impl AnirenaClient {
    /// The API key.
    pub closed spec fn spec_api_key(&self) -> Seq<char> {
        self.api_key@
    }

    /// The cached token, if any.
    pub closed spec fn spec_token_cache(&self) -> Option<TokenCache> {
        self.token_cache
    }

    /// The token has expired at `now`, or there is none.
    pub open spec fn spec_token_expired_at(&self, now: UtcTime) -> bool {
        match self.spec_token_cache() {
            Some(cache) => cache.spec_is_expired_at(now),
            None => true,
        }
    }

    /// The token that can be used at `now` without asking for a new one.
    pub open spec fn spec_cached_token_at(&self, now: UtcTime) -> Option<Seq<char>> {
        match self.spec_token_cache() {
            Some(cache) => if cache.spec_is_expired_at(now) {
                None
            } else {
                Some(cache.bearer_token@)
            },
            None => None,
        }
    }

    /// A client for `api_key` that starts from the cache that was loaded, if
    /// it was found and still valid.
    pub fn new(api_key: &str, loaded: Option<TokenCacheState>) -> (client: AnirenaClient)
        ensures
            client.spec_api_key() == api_key@,
            client.spec_token_cache() == match loaded {
                Some(TokenCacheState::Valid(cache)) => Some(cache),
                _ => None,
            },
    {
        let token_cache = match loaded {
            Some(TokenCacheState::Valid(cache)) => Some(cache),
            _ => None,
        };
        AnirenaClient { api_key: String::from_str(api_key), token_cache }
    }

    /// Whether the token has expired at `now` (or there is none).
    pub fn token_expired_at(&self, now: &UtcTime) -> (expired: bool)
        ensures
            expired == self.spec_token_expired_at(*now),
    {
        match &self.token_cache {
            Some(cache) => cache.is_expired_at(now),
            None => true,
        }
    }

    /// Whether the token has expired at the current time (or there is none).
    pub fn token_expired(&self) -> (expired: bool)
        ensures
            self.spec_token_cache() is None ==> expired,
            exists|now: UtcTime| now.is_valid() && expired == self.spec_token_expired_at(now),
    {
        let now = utc_now();
        self.token_expired_at(&now)
    }

    /// The cached token, if there is one and it has not expired at `now`.
    pub fn cached_token_at(&self, now: &UtcTime) -> (token: Option<String>)
        ensures
            token matches Some(t) ==> self.spec_cached_token_at(*now) == Some(t@),
            token is None ==> self.spec_cached_token_at(*now) is None,
    {
        match &self.token_cache {
            Some(cache) => {
                if cache.is_expired_at(now) {
                    None
                } else {
                    Some(cache.bearer_token.clone())
                }
            },
            None => None,
        }
    }

    /// The cached token, if there is one and it has not expired at the
    /// current time.
    pub fn cached_token(&self) -> (token: Option<String>)
        ensures
            self.spec_token_cache() is None ==> token is None,
            exists|now: UtcTime|
                now.is_valid() && (match token {
                    Some(t) => self.spec_cached_token_at(now) == Some(t@),
                    None => self.spec_cached_token_at(now) is None,
                }),
    {
        let now = utc_now();
        self.cached_token_at(&now)
    }

    /// Keeps the token of a response received at `now`, which expires
    /// `expires_in` seconds later, and returns the cache to be saved.
    pub fn store_token_at(&mut self, response: TokenResponse, now: &UtcTime) -> (cache: TokenCache)
        requires
            now.is_valid(),
            now.secs + response.expires_in <= MAX_TIMESTAMP,
        ensures
            cache == TokenCache::spec_from_response(response, *now),
            final(self).spec_token_cache() == Some(cache),
            final(self).spec_api_key() == old(self).spec_api_key(),
    {
        let expires_at = match checked_add_seconds(*now, response.expires_in) {
            Some(later) => later,
            None => *now,
        };
        let cache = TokenCache { bearer_token: response.token, expires_at };
        self.token_cache = Some(cache.duplicate());
        cache
    }

    /// Keeps the token of a response received now, and returns the cache to
    /// be saved; `None`, with nothing changed, where its expiry lies past
    /// what chrono can hold.
    pub fn store_token(&mut self, response: TokenResponse) -> (cache: Option<TokenCache>)
        ensures
            cache matches Some(c) ==> {
                &&& exists|now: UtcTime|
                    now.is_valid() && now.secs + response.expires_in <= MAX_TIMESTAMP && c
                        == TokenCache::spec_from_response(response, now)
                &&& final(self).spec_token_cache() == Some(c)
            },
            cache is None ==> {
                &&& exists|now: UtcTime|
                    now.is_valid() && now.secs + response.expires_in > MAX_TIMESTAMP
                &&& final(self).spec_token_cache() == old(self).spec_token_cache()
            },
            final(self).spec_api_key() == old(self).spec_api_key(),
    {
        let now = utc_now();
        if now.secs <= MAX_TIMESTAMP - response.expires_in as i64 {
            Some(self.store_token_at(response, &now))
        } else {
            None
        }
    }
}

/// A token is served from the cache exactly while it has not expired: the
/// cached token is there at `now` if and only if the token has not expired
/// at `now`, and it is then the stored bearer token.
pub proof fn lemma_cached_token_iff_not_expired(client: AnirenaClient, now: UtcTime)
    ensures
        client.spec_cached_token_at(now) is Some <==> !client.spec_token_expired_at(now),
        client.spec_cached_token_at(now) matches Some(t) ==> t
            == client.spec_token_cache()->0.bearer_token@,
{
}

/// A token stored at `now` that lives `expires_in` seconds is served from the
/// cache at every instant before `now + expires_in` seconds, and at none from
/// then on.
pub proof fn lemma_stored_token_lifetime(response: TokenResponse, now: UtcTime, later: UtcTime)
    requires
        now.is_valid(),
        now.secs + response.expires_in <= MAX_TIMESTAMP,
    ensures
        !TokenCache::spec_from_response(response, now).spec_is_expired_at(later) <==> (later.secs
            < now.secs + response.expires_in || (later.secs == now.secs + response.expires_in
            && later.nanos < now.nanos)),
{
}

/// A cache read while its token is valid is handed back unchanged; one read
/// once its token has expired is reported as expired.
pub proof fn lemma_cache_state(cache: TokenCache, now: UtcTime)
    ensures
        cache.spec_state_at(now) matches TokenCacheState::Valid(kept) ==> kept == cache,
        cache.spec_state_at(now) is Expired <==> cache.expires_at.spec_at_or_before(now),
        !(cache.spec_state_at(now) is Missing),
{
}

} // verus!
