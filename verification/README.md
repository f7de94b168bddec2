# Epik

_You say it. We make it._

The domain core of Epik, verified with Verus: what a feature's plan is and
which of its issues may be built, the record of a build and the log that tells
of it, the picture a window draws, how a finished branch is judged and merged,
what is said to a model and to GitHub and how their answers are read, and what
must stand before a run may start.

- `src/` — the library. Every function states what it returns or changes, and
  Verus proves it. What is asked of `serde_json` and of a few functions of std
  that have no specification goes through a handful of small trusted functions
  in `json.rs`, `text.rs` and `agent.rs`; each says what is believed of it.
- `tests/` — the library, run.
- `app/` — the worker process around it: threads, processes, files, the
  keyring and the network. It does what the library's state machines ask for
  and hands back what came of it.

Where work outside the library alternates with decisions, the decisions are a
state machine in `src/`: `job::Provision`, `feature::merge::Merge` and
`Establish`, `feature::starting::Launching`, `feature::attempt::Attempt`,
`chat::stream::Hearing`. Each has a `deed` (or `args`) to be done and a `next`
that takes what came of it. The laws they keep, and those of the plan, the
build, the layout and the monitor, stand as public proof functions beside
them. What crosses a process boundary is told as JSON in `crossing`, and heard
back as it was told.
