# agentfs

A file system for agents, kept in the tables of a database, and the parts around
it: an overlay over a directory, adapters for the kernel, for network clients and
for Windows, and the runtime that serves applications as trees of files.

The library is written in Verus. What it decides and computes is stated in
contracts and proved; what only the outside world can do is asked for.

## Layout

- `src/text.rs`, `paths.rs`, `strmap.rs`, `json.rs`, `clock.rs`, `arith.rs`,
  `errno.rs`: texts, paths, tables keyed by texts, JSON, time, numbers.
- `src/plan.rs`: computations that ask questions. An operation is a plan; its step
  function takes the replies so far and gives the next question or the result.
- `src/fs`: the file system over its tables. `laws.rs` says what operations keep,
  over a model of the tables.
- `src/overlay`: the copy-on-write overlay. `layers.rs` is a model of its two layers;
  `laws.rs` and `moving.rs` say what holds over it.
- `src/appfs`: submissions, the event stream, paging handles, streaming jobs, and
  the round that looks at the action files.
- `src/fuse`, `src/nfs`, `src/winfsp`: the three adapters; `src/nodes.rs` holds what
  the last two ask of a file system.
- `src/options.rs`, `pool.rs`, `fsignore.rs`: which database is opened, the pool of
  connections, the ignore file.
- `src/cmd`: what the commands decide.
- `app/`: the command line, the database, the HTTP bridge, files and processes.
- `tests/`: tests of the library from outside.

Functions whose contracts are taken on trust carry `external_body` and name the
outside function that they call.
