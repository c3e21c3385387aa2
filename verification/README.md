# growterm (verified core)

The core of the growterm terminal emulator as a Verus library: the screen
grid and its escape-sequence commands, the terminal queries and kitty
keyboard controls picked out of program output, mouse selection and copied
text, Hangul jamo composition and IME handling, tabs, key routing and
shortcuts, draw commands, the pomodoro and response timers, the grid dump
used by end-to-end tests, and the configuration rules that do not depend on
the file format.

- `src/` — the library; every function is verified against its contract,
  except the small trusted wrappers round std, `unicode-width` and `toml`, whose
  contracts are taken on trust: `text::char_width` (`UnicodeWidthChar::width`),
  `text::char_to_string`, `text::push_char`, `hangul::char_from_u32`,
  `settings::toml_top_key_of` (`toml::Value` parsing and lookup),
  `clock::instant_now`, `clock::duration_between` and `clock::duration_nanos`
  (the last three state nothing of their results). Laws that span several
  calls are public proof functions (`lemma_*`).
- `tests/` — tests of the library on concrete values.
- `app/` — a window-less runner: spawns the shell in a pseudo-terminal,
  parses its output with `vte`, keeps the grid, reads `config.toml`, and can
  write the grid dump (`GROWTERM_GRID_DUMP`).
