# Discordinator

A terminal Discord client with tmux-like panes and vim-like modes, whose core is verified
with Verus.

- `src/` is the library: the markdown parser and renderer, the message cache, the pane tree
  and its layout, the key handling and application state, the gateway protocol (payloads,
  events, zlib stream, reconnection and backoff), the HTTP request preparation and rate
  limiting, login and QR-login steps, the client fingerprint headers, the message rows of the
  store, log rotation and configuration defaults. Every function has a contract proved by
  Verus; the few calls into outside crates (base64, sha2, rsa, qrcode, flate2, rand, keyring,
  dirs, iana-time-zone) go through small trusted wrappers whose contracts say what those
  crates document. Laws that span several functions are public proof functions named `law_*`.
- `app/` is the program around it: the terminal (crossterm, ratatui), the gateway WebSocket
  (tokio-tungstenite), HTTP (reqwest), SQLite (rusqlite), logging, and the TOML and JSON files.
- `tests/` exercises the library on concrete values.
