# avdl

The logic of a desktop downloader for JableTV, MissAV and SupJav, written
in Verus. Every function in `src/` carries a contract; Verus proves all of
them except the small `#[verifier::external_body]` wrappers around the
outside crates (`url`, `dom_query`, `regex`, `aes`/`cbc`, `serde_json`) and a
few std calls, whose contracts are trusted and say so in their doc comments.

- `src/text.rs`, `src/pattern.rs`: character-level string operations and the
  video-code and capture patterns, with their specifications.
- `src/weburl.rs`, `src/html.rs`: URL parsing and HTML selection, through the
  `url` and `dom_query` crates.
- `src/proxy.rs`: proxy addresses, system proxy detection results and the
  proxy settings plan.
- `src/scraper/`: listing pages, categories, search URLs, mirrors and
  Cloudflare clearance headers.
- `src/downloader/`: HLS playlists, page parsers, segment decryption, the task
  registry and the download engine's decisions.
- `src/commands/`: the decisions behind the application's commands (resume
  settings, unfinished downloads, the Cloudflare verifier, updates, disks).
- `src/error.rs`: the error codes shown to the user.

`app/` is the Tauri application around the library: windows, files, HTTP and
the loops that alternate requests with the library's decisions.
