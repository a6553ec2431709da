# serialtool

A serial-port terminal (串口调试助手): pick a port and its framing, open it,
watch what arrives as text or hexadecimal, send text or hex bytes by hand, on
a timer or from quick-command slots, and keep a history of what was sent.

## Layout

- `src/` — the library, verified with Verus: the program's decisions on plain
  values, each with its contract:
  - `text.rs` — character-level helpers (trimming, decimal text, splitting
    into lines, case-insensitive comparison) with their specifications;
  - `types.rs` — the parameter enums and the saved records;
  - `backend/` — hex parsing and formatting, the bytes to send, the display
    form of received bytes, the bounded send history, the twenty quick-command
    slots, the no-reset registry step, the CH341 driver-fix checks and the
    permission-request flow;
  - `clock.rs` — wall-clock time stamps and log file names (through chrono);
  - `session.rs` — the terminal log (at most 2000 lines), search, history
    browsing with the arrow keys, the port panel and the open request;
  - `controller.rs` — the state behind the window and what each button and
    event does to it; the caller performs the I/O these decisions ask for;
  - `laws.rs` — properties that span several functions, proved.
- `tests/` — tests of the library on concrete values.
- `app/` — the iced window, serial-port I/O, files and processes, and what
  works on floating-point pixel sizes (panel widths, font size); it asks the
  library for the decisions above.
