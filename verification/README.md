# Lyra

Lyra makes songs with MiniMax-Music3 on `audio.cpp`, from a terminal interface and from a web
interface that share one core. This is its library, written in Rust and verified with Verus, and the
program around it.

- `src/` holds the rules, each with its contract: the settings and how they are changed field by
  field (`config`, `field`, `edit`, `double`, `number`, `text`), what is found on disk (`detect`,
  `path`), the command of a run (`argv`, `shell`), the run itself with its log and the row that it
  leaves (`runner`, `history`), the presets (`presets`), the terminal interface as a state machine
  with what it shows (`tui`, `input`, `view`, `layout`), the web interface as a function of a request
  (`web`, `sse`, `url`, `json`), and the command line (`cli`, `clock`).
- `src/laws/` holds what is proved across modules; laws of one module stand in it.
- `tests/` runs the library.
- `app/` does what is outside: the screen, the network, the disk, the process, and arithmetic on
  numbers with a fraction.

A number with a fraction is held by the bits of its double and the text that is shown for it, so that
comparing and clamping it can be proved; reading it, writing it and adding to it is left to `app/`.
