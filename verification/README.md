# aetherstream

The verified core of a terminal video and IPTV browser, written in Verus.

- `src/text.rs` — characters, trimming, searching, decimal text.
- `src/json.rs` — the model of decoded JSON documents and its lookups.
- `src/video/iptv.rs` — the M3U playlist parser and its laws.
- `src/video/jellyfin.rs`, `youtube.rs`, `local.rs`, `player.rs` — request
  URLs, command lines, and what the answers of the media sources become.
- `src/ui/video_browser.rs` — the channel browser: filtering, panel texts,
  and the key-handling state machine with its laws.
- `src/ui/mod.rs` — texts of the now-playing and controls panels.
- `app/` — plain Rust around the library: HTTP, server discovery over UDP,
  processes, files, JSON decoding, terminal drawing and key events.
- `tests/` — tests of the library on concrete values.
