# nyx_tui

A terminal dashboard for the VulnyX lab platform: the machine catalog,
first-blood flag submission, community writeups, completed-machine
tracking and the leaderboard position computed with the site's own
scoring rules.

The logic is a library verified with Verus; the program around it does the
terminal, network and file work.

## Layout

- `src/` — the verified library.
  - `text.rs` — trimming, case folding, searching, decimal formatting.
  - `order.rs` — stable ordering by lexicographic keys, with its laws.
  - `machines.rs`, `writeups.rs`, `flags.rs`, `json.rs` — the catalog,
    the writeups map and the replies of the site's endpoints.
  - `leaderboard.rs` — the leaderboard and its laws (ranking, points).
  - `captcha.rs` — PNG decoding and the CAPTCHA glyph reader.
  - `download.rs`, `session.rs` — the download flow's rules, URLs.
  - `config.rs` — what the preferences file holds, reads and writes.
  - `commands.rs` — what the actions submit and report.
  - `i18n.rs` — the message catalog in English and Spanish.
  - `tui/` — the dashboard: application state (`state.rs`), key handling
    (`keys.rs`), text layout (`layout.rs`), the shown texts (`view.rs`),
    download job state (`downloads.rs`).
- `tests/` — tests of the library.
- `app/` — the `nyx` program: event loop, drawing, HTTP, files.
