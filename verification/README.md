# Atlas

The decisions of a map viewer, verified with Verus: what is drawn and in which order, which marker
comes from which source, how a loot run is put together, and how a map's light is stored.

- `src/` is the library. Every function states what it returns, over sequences, integers and the bits
  of floats. `src/f32bits.rs` says what the comparisons of floats mean on those bits.
  - `settings`, `render_path`, `path_guard`, `paths`, `progress`: start-up and what is kept on disk.
  - `texture`, `gpu`, `instancing`, `standard`, `post`: the data that the GPU is given.
  - `poi`: markers, cards, zones, keys and tasks.
  - `pathfind`, `planner`, `loot_run`, `loot_search`: routes and loot runs.
  - `bake`: the volume of light probes.
- `tests/` runs the library.
- `app/` is the program around it: files, the environment, and what is computed in floating point.
  It has no reader for the geometry of a pack (`SceneReader` in `app/bake.rs` stands for one), none for
  the walkable grid (`NavGrid` in `app/routing.rs`), and opens no graphics card. So the command
  `bake-sh` ends with the message that the geometry cannot be read, and nothing fills the library's
  `PackIn`: a program that has such readers does.

Functions named as sentences (`the_walk_only_descends`, `cache_round_trip`) are the laws of the
library: proofs of what holds over several calls or for every state.
