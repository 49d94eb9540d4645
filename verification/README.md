# commiter

An interactive tool that writes commit messages with a language model, lets
the user edit them, copies them to the clipboard and commits. The logic is a
Verus-verified library; a thin terminal front end does the input and output.

## Layout

- `src/` — the verified library
  - `app.rs` — the application state, its events, and editing the message
    under a UTF-8 byte cursor
  - `session.rs` — what each key press decides and the commands it hands to
    the front end; how background results become events
  - `display.rs` — what the screen shows (colours, buttons, hints, file rows,
    the edit cursor's cell)
  - `ai.rs` — the prompt, and turning the model's answer into a message and a
    suggested version (subject line limited to 90 characters)
  - `git.rs` — combining staged and unstaged diffs within a byte budget, and
    finding the current version from tags or the manifest
  - `semver.rs` — `X.Y.Z` versions: parsing, ordering, display
  - `clipboard.rs` — the order in which clipboard tools are tried
  - `cli.rs` — command-line arguments
  - `text.rs`, `strings.rs` — the UTF-8 text model and character-sequence
    utilities, each with its spec function
  - `clock.rs` — the spinner's start time
- `app/` — the terminal front end (`ratatui`, `crossterm`), repository access
  (`git2`), and running the model and clipboard commands
- `tests/` — tests of the library
