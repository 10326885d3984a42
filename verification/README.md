# coord-agent

The agent of a coordination cluster: it hosts plugins (scripts, WebAssembly modules, components
and native services), lets hooks judge requests and calls, runs sagas, and answers clients as a
local proxy of the cluster.

- `src/` is the library. It decides: what a manifest may say, which plugins a changed
  configuration removes, replaces or adds, what a plugin may do, when a plugin is interrupted,
  what a failure is answered, what a saga undoes. Verus proves the contracts of its functions. The
  few functions that wrap a call into another crate or into `std` are trusted; each says what it
  claims of that call.
- `app/` acts: threads, clocks, sockets, files and the engines themselves. It performs what the
  library asks for and hands back what came of it.
- `tests/` runs the library on concrete values.

Work that the surroundings do stands in the library as a value that goes through phases: it names
the next action, takes in what came of it and says at the end what is answered
(`ReloadRun`, `EngineThread`, `ProvisionRun`, `PutRun` and others).

Laws that span several functions are the public proof functions named `law_`.
