# young_agent

A coding agent whose decisions are verified: which shell commands may run
without approval, what a patch does to a file, what a search finds, what a read
gives back, how a command is run, stopped and cleaned up, which events a run of
the agent records and how they are shown.

- `src/` is the library. Every function in it states what it returns or changes,
  and Verus proves it. What needs the outside world is a state machine: it says
  what it waits for, and is told what came of it. The `*_model.rs` files hold the
  mathematical models, the `*_laws.rs` files and the functions named `law_*` what
  holds of them.
- `app/` is the program around it: files, processes, signals, the terminal, the
  event log and the script of the fake model provider.
- `tests/` runs the library on concrete values.

Paths are texts, and the arguments of a tool call are JSON texts.
