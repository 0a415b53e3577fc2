# stitch_pty

Pseudo-terminals with an integrated terminal emulator, verified with Verus.

- `src/` is the library. Every function in it has a contract that Verus proves.
  - `terminal` emulates a VT100/VT220/xterm terminal. `ansi_parser` takes the byte stream apart,
    `parser` performs what was found on a `screen`, and `history` keeps the lines that scrolled
    off. `state` is the mathematical model of a screen, `soundness` shows that every operation
    keeps it in good order, and `laws`, `log_laws`, `feed_laws` and `dirty_laws` hold what is
    promised of the terminal as a whole.
  - `platform`, `launch`, `command_line`, `winsize` and `errors` hold the decisions around the
    pseudo-terminals of Unix and Windows.
  - `terminal_api` is the terminal as front-ends use it.
  - `text` and `utf8` build and read text, and `transfer` keeps track of data on its way out.
- `tests/` runs the library.
- `app/` is the Python module around it: system calls, the asynchronous runtime and the Python
  classes. It is ordinary Rust.

What the proofs rest on besides Verus and its library is marked in the source: the character
widths of `unicode-width`, the signal table of `nix`, how the standard library prints a duration,
and `String::push` and `char::from_u32`.
