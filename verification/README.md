# corepolicy_manager

A policy daemon for Android devices: a deterministic job and action state
machine with a priority scheduler and incrementally hashed state, the
preload addon that reads an app's files ahead when it comes to the
foreground, app profiles and categories, tweak profiles for kernel and
device settings, and the control socket's protocol.

`src/` is the library, written in Verus: every function there carries a
contract and is proved against it. The laws of the library are stated
either in the contracts of the operations they are about (such as the core
store's hash moving exactly with the recomputed hash) or, where they relate
several operations, as proof functions next to the code. `tests/` runs the
library on concrete values. `app/` is the program around it: the file
system, the sockets, child processes and the clock. Each tick it hands the
library's `daemon_tick` the clients' commands and the events its effects
produced, performs the effects that come back and answers the clients; it
also drives the preload addon and reads recordings for `replay`.

Layout of `src/`:

- `machine/` — jobs, actions, events, reducers, the dispatcher, the
  scheduler and the global consistency check.
- `daemon/` — the job loop's tick, replay of recordings, and the feature
  daemon's decisions.
- `high_level/` — requests and capabilities, addons, the preload addon and
  its state model.
- `mid_level/ipc.rs` — clients, framing of requests and responses.
- `features/` — tweak profiles and their writes, app profiles, categories,
  preload cooldowns.
- `runtime/` — tick clock, foreground resolution, inotify mapping, pressure
  fields, the app index rules, status records, log deduplication.
- `low_level/` — decoding of inotify records and process status files.
- `codec.rs`, `text.rs` — JSON payloads through serde_json, text helpers.
