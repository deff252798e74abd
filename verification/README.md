# is-tibo-happy

A small companion for the Codex desktop app: a card in its profile menu that
shows Tibo's mood (HAPPY when a usage reset is teased or just happened,
UNHAPPY after three quiet days, OFFLINE after twelve hours without data) and
one line about the next reset.

## Layout

- `src/` — the library, verified with Verus:
  - `json.rs`, `num.rs`, `fields.rs`, `text.rs`, `rx.rs`, `time.rs` — the JSON
    model (numbers as exact rationals), text helpers, regular expressions and
    time (parsing, formatting and time zones are done by `regex`, `chrono`
    and `chrono-tz`; their results are named in the contracts).
  - `target.rs` — a tease's text ("coming Tuesday") to a concrete UTC window.
  - `forecast.rs`, `resets.rs` — the card state `{kind, detail}` from either
    upstream shape.
  - `display.rs` — the second line (Chinese and English) and the choice
    between fresh data, a cached state and OFFLINE.
  - `betteropc.rs` — betteropc.com's Codex page read into the forecast shape.
  - `net.rs` — the order of the sources and what each reply yields.
  - `update.rs` — the self-update decisions (release, checksum file, digest).
  - `daemon.rs`, `inspector.rs`, `cdp.rs`, `cli.rs` — the daemon's decisions
    (relaunch cap, backoffs, page events, what is pushed) and the helpers of
    its channels and command line.
- `tests/` — scenario tests of the library.
- `app/` — the program: HTTP, processes, files, sockets and the daemon's
  loops, calling the library for every decision.

The widget script (`widget.js`) and the avatar (`avatar.json`) are read from
the directory of the executable.
