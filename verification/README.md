# Codex Usage Tray

A tray application that shows the rate limits, credits and token heatmap of a local Codex CLI. It
asks `codex app-server` over its standard streams and reads the session logs below `~/.codex`.

- `src/` is the library, written in Verus: the exchange with the server, the snapshot of an account,
  the token heatmap, the choice of the executable, the settings, the cache and the place of the popup.
  Each function states in `ensures` what it returns; the functions named `law_...` state what holds of
  several of them together.
- `tests/` runs the library on concrete values.
- `app/` is the program around it: the Tauri window and tray, the server process, files, environment
  and registry. Quantities become floating point numbers only there.

The library calls `serde_json` and `chrono` through small functions marked `external_body`, whose
contracts are trusted; each says in its comment what it claims.
