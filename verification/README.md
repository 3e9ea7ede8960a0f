# claude_sessions

A verified library behind a terminal session manager for coding-agent
sessions. Verus proves each public function against its contract.

- `src/text.rs`: character primitives over `Seq<char>` (trimming, infix search,
  the std character classes it relies on).
- `src/ansi.rs`: removal of terminal escape sequences, with its laws (no escape
  character survives, plain text is untouched, stripping is idempotent).
- `src/detection.rs`: line splitting and the status that a session's screen
  shows (working, waiting for input, idle, unknown).
- `src/scroll_state.rs`: center-locked scrolling over ratatui's `ListState`,
  with laws on visibility, centering and monotonicity.
- `src/input.rs`: what each key does in each mode (text edits on the mode, an
  `Action` for the application) and what a mouse click selects, with laws on
  field cycling, undoing a typed character and the validity of typed names.
- `app/lib.rs`: crossterm/ratatui glue that converts events and carries out
  the actions on the application.
