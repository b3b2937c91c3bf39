use vstd::prelude::*;

verus! {

/// The command-line options: the AniRena API key, the qBittorrent connection
/// and its defaults, how many pages to fetch, whether to add torrents, and the
/// search terms.
pub struct CLiOpts {
    pub api_key: String,
    pub qbt_base_url: String,
    pub qbt_username: String,
    pub qbt_password: String,
    pub qbt_category: Option<String>,
    pub qbt_auto_start: bool,
    pub pages: Option<u32>,
    pub add: bool,
    pub search_term: Vec<String>,
}

} // verus!
