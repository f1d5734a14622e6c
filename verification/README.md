# search_engine_state

State keeping for a file search engine, written and proved in Verus.

- `src/` is the library. `state` holds the operations of the search engine,
  `search_engine` the state they work on, with the specification of every
  change; `progress`, `metrics`, `activity`, `config`, `stats` and `engine` hold
  the parts. `run` decides, event by event, how a directory tree is indexed in
  chunks. `sample_paths` gathers paths to try the engine on. `laws`,
  `run_laws` and `walk_laws` prove what holds across operations and over whole
  runs.
- `tests/` runs the library against a small index kept in memory.
- `app/` puts the library behind locks, reads directories, serialises the data
  and computes the floating-point numbers shown to the user.

Percentages and averages are kept as the counts they are computed from, so that
every statement about them is exact.
