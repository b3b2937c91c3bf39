use vstd::prelude::*;

verus! {

/// The address of the AniRena service.
pub const API_BASE_URL: &'static str = "https://www.anirena.com";

/// Where a request goes and the `Authorization` header it carries.
pub struct ApiRequest {
    pub url: String,
    pub authorization: String,
}

/// The request that trades an API key for a bearer token.
pub fn token_request(api_key: &str) -> (request: ApiRequest)
    ensures
        request.url@ == API_BASE_URL@ + "/api/v1/auth/token"@,
        request.authorization@ == "ApiKey "@ + api_key@,
{
    let url = String::from_str(API_BASE_URL).concat("/api/v1/auth/token");
    let authorization = String::from_str("ApiKey ").concat(api_key);
    ApiRequest { url, authorization }
}

/// The request that searches torrents with a bearer token.
pub fn search_request(token: &str) -> (request: ApiRequest)
    ensures
        request.url@ == API_BASE_URL@ + "/api/v1/torrents/search"@,
        request.authorization@ == "Bearer "@ + token@,
{
    let url = String::from_str(API_BASE_URL).concat("/api/v1/torrents/search");
    let authorization = String::from_str("Bearer ").concat(token);
    ApiRequest { url, authorization }
}

} // verus!
