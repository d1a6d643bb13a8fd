# line-discipline

The Linux `n_tty` line discipline as a verified library. A `State` turns the bytes a terminal
types into the lines a program reads, and the bytes a program writes into what the terminal
shows: canonical editing, echo, signals, flow control and output post-processing, with no system
call and no file descriptor.

## Layout

- `src/state/model.rs` states the discipline as a pure function (`Discipline`): what each typed
  byte, each program write and each termios change does. `State` in `src/state/` implements it,
  one file per path (`receive.rs`, `canon.rs`, `echo.rs`, `output.rs`), and every public method
  is proved to compute exactly what the model says, keeping the state's invariant.
- `src/state/laws.rs` proves what holds across calls: raw mode passes bytes through, canonical
  input waits for a line end, held output takes nothing, a signal flushes the call unless
  `NOFLSH`, a signal event comes only from a signal character, a termios change releases the
  line exactly when the mode changes, and typing bytes in two calls hands the program what one
  call would, down to the echo and the cursor while output runs. `src/state/frame.rs` holds the
  lemmas behind these: the echo buffer and the cursor never decide the rest of a discipline;
  `src/state/split.rs` shows that writing out held echo in pieces leaves the cursor where
  writing it out at once would.
- `src/state/snapshot.rs` takes a discipline apart into plain values and puts one back together
  only when it is consistent; `app/` serializes those values with rkyv for checkpoints.
- `src/pty/` holds a pty pair's queues around the discipline (`pty::State`, `input`, `output`,
  readiness, flushing, packet mode), with its own model and laws in `src/pty/laws.rs`.
- `src/termios/` holds `Termios` and the `termbits.h` constants, `src/ctype.rs` the kernel's
  character classes.
