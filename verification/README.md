# zjstatus_hints

A zellij plugin that sends the key hints of the current input mode to a
zjstatus pipe, as a line of powerline-styled segments.

- `src/` is the library, verified with Verus:
  - `ansi`: splitting text into escape sequences and visible characters,
    measuring and truncating it;
  - `color`, `config`: `#rrggbb` colours, the option map and the settings read
    from it;
  - `keys`, `actions`: keys, modifiers, actions, and finding the keys bound to
    given actions;
  - `hints`, `modes`: the hints of each mode and their styled segments;
  - `plugin`: the plugin state, its updates and the status line it renders
    (the segments are written with `ansi_term`).
- `app/main.rs` is the plugin itself: it receives the host's events, converts
  them for the library, and sends and prints what the library renders.
- `tests/` runs the library on concrete inputs.
