# ai_memory

Capture coverage and history import for a project memory, verified with Verus.

- `src/` is the library. `backfill` decides what a one-time import of local
  history does next, `sessions` picks the sessions, `events` and `hook` turn a
  transcript into hook items, `delivery` posts them in batches, `report` tells
  what happened, and `sentinel` names the mark of an attempt. `counts`,
  `coverage` and `doctor` compare the sessions on disk with those that the
  server captured. `autowire` decides what the first launch of a harness
  installs. `path_sanitize` makes page paths portable. `harness`, `time` and
  `text` hold what the others share.
- `app/` runs these decisions: it talks to the server, reads the session
  stores, writes the marks and prints.
- `tests/` exercises the library on concrete values.

Trusted rather than proved about other crates: that parsing a URL, parsing it
with query parameters (`hook`) and the SHA-256 digest (`sentinel`) depend on
their arguments alone, as their doc comments say. Of the standard library,
`String::push` is given a contract in `text`.
