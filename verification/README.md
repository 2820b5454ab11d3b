# entrylink

Links between the entries of a personal-information store, verified with
Verus.

Every entry keeps its links in its header, under `imag.links`, as an array
of the local paths of the linked entries. Linking two entries writes a link
on both sides; unlinking takes it out on both sides. The stored array always
holds each path once, in ascending order.

- `src/storeid.rs`: store ids (a local path, optionally under a store path).
- `src/header.rs`: the part of an entry header that holds links.
- `src/entry.rs`, `src/store.rs`: entries and an in-memory store of them,
  with reads and deletes that can be marked to fail.
- `src/internal.rs`: reading and writing links, and linking entries.
- `src/iter.rs`: iterators over links and over linked entries.
- `src/pred.rs`: a test on entries by their number of links.
- `src/order.rs`: the order of link paths, and sorting them.
- `src/laws.rs`: properties of linking, proved.
- `app/`: conversion of headers from and to TOML, and a `filters` filter.
