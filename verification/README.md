# ani-tui

A terminal user interface for searching anime, reading their metadata and
playing episodes in a local video player.

## Layout

- `src/` — the library, verified with Verus:
  - `app_model.rs` — the TUI state as a mathematical value (`AppView`), its
    transition function `step`, the state invariant and the laws about them
    (the invariant is kept by every action, Ctrl-C always quits, a synopsis is
    requested at most once, cached streams and posters are found again, ...).
  - `app.rs` — the executable state (`App`); `handle_action` is proved to
    follow `step` exactly.
  - `api/` — readers of the AllAnime, Jikan, AniList, Kitsu and Notify.moe
    answers, each against a specification of what it extracts; the AllAnime
    link cipher.
  - `session.rs` — matching metadata to search results, choosing a stream,
    planning what playing an episode needs.
  - `player.rs` — installed-player detection and the command line of each player.
  - `json.rs`, `text.rs`, `number.rs` — JSON values, character sequences,
    fixed-point numbers.
  - `ui.rs` — word wrapping and the choice lists of the setup wizard.
  - `update.rs` — release-build selection and reading a release answer.
  - `poster.rs` — decoding poster images with the `image` crate.
- `tests/` — tests of the library on concrete values.
- `app/` — the program: terminal, event loop, HTTP requests, configuration
  file, player processes and drawing.
