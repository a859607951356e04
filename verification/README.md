# sticker_relay

The core of StickerRelay, a desktop tool that collects one's own WeChat
stickers into a local library and sends them to oneself through the official
Feishu CLI. The library is written in Verus: each public function carries a
contract, and the laws of the library are proof functions.

## Layout

- `src/store.rs` – the sticker library: records keyed by SHA-256, newest-first
  listing, Feishu send states, deletion, moving the library and merging two
  libraries, export entries.
- `src/wechat.rs` – the WeChat file-transfer client: login pages and scripts,
  sticker XML, candidate download URLs and their ranking, the handled-sticker
  set, message planning, download diagnostics, the scanner's decisions.
- `src/feishu.rs` – the Feishu CLI: release selection and checksums, the
  download schedule (mirror first, then GitHub), authorization URLs, status,
  device-code login, batch sending.
- `src/archive.rs` – reading the checksum list and the CLI out of release archives.
- `src/settings.rs`, `src/library.rs` – application settings and what the
  library commands report.
- `src/json.rs`, `src/text.rs`, `src/digest.rs`, `src/patterns.rs`,
  `src/web.rs`, `src/versions.rs` – JSON values, text, digests, regular
  expressions, URLs and versions; the calls into `sha2`, `hex`, `base64`,
  `regex`, `url`, `urlencoding`, `semver`, `tar`, `flate2` and `zip` sit
  behind small trusted wrappers whose contracts name their results.
- `app/` – files, processes, HTTP, cookies and the platform's secret store
  around the library, and the commands the front end invokes.
- `tests/` – tests of the library.

