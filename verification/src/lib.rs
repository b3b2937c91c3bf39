//! Search client logic for the AniRena torrent index, with its decisions
//! stated as contracts and proved.

pub mod api;
pub mod cli;
pub mod listing;
pub mod magnet;
pub mod qbt;
pub mod search;
pub mod text;
pub mod time;
pub mod token;
pub mod torrent;

pub use api::API_BASE_URL;
pub use magnet::format_magnet_line;
pub use token::AnirenaClient;
pub use torrent::{SearchResults, TokenResponse, Torrent};
