# opsx-build

`opsx-build` carries an OpenSpec change through unattended stages: Explore,
Propose, the proposal commit, Apply, Verify and repair, Archive, and the
completion commit. A campaign repeats this until an ordered agenda is archived,
and a stronger frontier model divides slices that turn out to be too large.

## Layout

- `src/` is the library, written in Verus. It decides: what the settings of a
  run are, what is asked of an agent and how its answer is read, what each stage
  leads to, when a slice is divided or the project is looked at as a whole, what
  a rollback does, and what the dashboard shows. Every function has a contract,
  and the promises that span several functions are the public proof functions
  whose names start with `law_`.
- `app/` is ordinary Rust around it: the command line, files, processes, the
  terminal, and the loops that carry out what the library decides.
- `tests/` runs the library on concrete values.

A step of a workflow is a function from the recorded state and what was found to
the next state and a list of effects. `app/` carries the effects out and hands
back what it found.

## The default harness

What the default agent harness is called is a value, `names::Harness`, that the
library takes wherever a message, a prompt or a path speaks of it: its title as
it is shown and recorded, and its name as a command and in a connection. The
program takes them from `OPSX_BUILD_HARNESS_TITLE` and `OPSX_BUILD_HARNESS`.

## What is trusted

`src/json.rs`, `src/codex.rs`, `src/codex_home.rs`, `src/frame.rs` and
`src/text.rs` hold the few wrappers around `serde_json`, `toml`, `uuid`,
`console` and the standard library whose contracts are believed. Each says which
outside function it calls and what is claimed of it.
