# igrep - Interactive Grep

`ig` runs grep (ripgrep's library) in the background, lets the user pick one
of its results and opens the selected match in a text editor (vim by default).

## Layout

- `src/` is the library, verified with Verus: the result list and its
  navigation and filtering, the key handling (single keys, two-key commands,
  pattern typing, the key bindings popup), the application's state machine,
  the editor choice and the command that launches it, the reading of
  ripgrep's configuration file, the splitting of multi-line hits, the
  widening of tabs with the match offsets that follow, the cutting of a line
  at its (byte) match offsets for highlighting, the interface's state and what
  each command does to it, and the texts of the bottom bar. Each public function states what it returns or changes; the
  `law_*` proof functions state what holds across calls (moving to the next
  match and back returns where one started, filtering removes exactly one
  match or file, the pending keys never exceed the start of a two-key
  command, and more).
- `app/` is the program around it: the command line (clap), the search
  threads (grep and ignore), syntax highlighting (syntect), launching the
  editor, and the terminal interface (crossterm and ratatui).
- `tests/` runs the library on concrete values.
