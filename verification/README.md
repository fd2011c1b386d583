# cargo-dirty

A `cargo` subcommand that runs a user-provided Cargo command and prints a minimal summary of
what was recompiled, and why. Its logic is a library verified with Verus.

## Layout

- `src/` is the verified library.
  - `parse/` reads one line of cargo's stderr: the status lines (`status`, `stderr_verbose`,
    `pattern`) and the fingerprint trace (`fingerprint`).
  - `build_log` records a run and says what is worth showing while it lasts; `engine` does the
    same without keeping the record.
  - `explain` finds the change that started a rebuild and the cascade that followed.
  - `cargo` and `cli` decide what the child is run with; `message` sorts its stdout.
  - `report` and `style` render everything that is printed.
  - `ordered`, `raw_line` and `text` are the groundwork.
  - `laws/` states what holds of the library as a whole.
- `app/` is the program around it: arguments, processes, threads and printing.
- `tests/` runs the library on concrete input.

## What is trusted

Verus checks everything in `src/` but the contracts of eight small wrappers around outside code:
`regex` (`parse/pattern.rs`), `cargo_metadata` (`message.rs`), `owo-colors` (`style.rs`, four of
them), `String::from_utf8_lossy` and `std::str::from_utf8` (`raw_line.rs`). Each says above its
body what it claims.
