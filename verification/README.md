# StreamVault

A client for browsing, playing and downloading titles from several streaming
catalogues, with its logic written in Verus and proved against its contracts.

## Layout

- `src/` — the verified library.
  - `providers/` — the catalogue providers (StreamingCommunity, RaiPlay, the
    Discovery sites Nove and Real Time, AnimeUnity): how their pages and
    replies are read into titles, seasons, episodes and streams.
  - `providers/*_pages.rs` — the providers' JSON pages and replies, read
    into the records the catalogue is built from.
  - `json.rs` — JSON documents as plain values, and the lookups made in them.
  - `provider/` — the earlier StreamingCommunity and VixCloud readers.
  - `search.rs` — normalising, scoring and ranking search results.
  - `config.rs`, `config/` — settings, the resume list and player preferences.
  - `sync.rs` — merging the resume list and preferences with a remote copy.
  - `util.rs`, `download/` — download naming, the downloader's and muxer's
    command lines, and how their output and exit are read.
  - `playback/` — the external player's command line and states.
  - `app.rs`, `gui/` — the interfaces' decisions: navigation, what each view
    shows, and what each message or event changes.
  - `text.rs`, `order.rs` — text and ordering helpers the proofs share.
- `tests/` — tests of the library.
- `app/` — a command-line front end: HTTP requests, files, processes and the
  synchronisation loop, handing plain values to the library.

Calls into `regex`, `scraper`, `url`, `serde_json`, `unicode-normalization`,
`uuid` and `dirs` are made from the library through small trusted wrappers
whose contracts state what those crates document.
