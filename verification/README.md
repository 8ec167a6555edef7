# terminal_orbit

A terminal space-combat simulator with Newtonian flight among the planets of
the solar system, drawn in Unicode braille characters.

The crate has two parts:

- `src/` is a library verified with Verus. It holds the rules of the game
  that do not depend on floating point: the mission-file tokenizer and
  statement reader, mission events, integer parsing, the high-score and
  save-slot tables, the braille canvas (on top of `drawille`), the radar
  grid, PPM texture and AC3D / `.tri` model decoding, the message console,
  menu and key handling, and the game loop's screen decisions. Each public
  function has a contract; `src/laws.rs` states properties that span
  several functions.
- `app/` is the program around it: the terminal (`crossterm`, `ratatui`),
  files (`serde`, `toml`), and the flight physics, AI, combat and 3D
  rendering, which work in floating point.

`tests/` exercises the library on concrete values.

Run the game from a directory that holds `missions/`, `models/` and `maps/`.
Preferences, save slots and scores live in `~/.config/terminal-orbit/`.
