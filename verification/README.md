# anirena

A command-line client for the AniRena torrent index: it searches torrents,
lists them (with clickable magnet links in a terminal) or adds the chosen ones
to qBittorrent.

- `src/` is the library, verified with Verus: the paging of searches and the
  search session, the stable ordering of results by lowercase title, the
  token cache and its expiry, the magnet line with control characters
  removed, the request descriptions, the listing lines and what is handed to
  qBittorrent. The calls into chrono and std that the logic needs stand
  behind small trusted wrappers in `time.rs`, `torrent.rs` and `text.rs`.
- `app/` is the program around it: command-line parsing, the HTTP requests,
  the JSON forms of the library's types, the cache file, the selection prompt
  and the qBittorrent connection.
- `tests/` runs the library on concrete values.
