# taimi_hud

The core of an overlay for squad markers, timers and pathing packs, written and proved in Verus.

- `src/` is the library. Marker files and the sets in them are in `marker_set`, `marker_file`,
  `marker_listing` and `marker_loading`, with what holds across several changes in `marker_laws`.
  The squad and its ranks are in `squad`, the steps of placing markers in `placement`. Settings,
  installed data and their sources are in `settings`, `remotes`, `source_dir`, `sources` and
  `asset_form`. `controller` answers events for markers, pathing and timers, `render` for what is
  drawn. Calls out of the library are in `clock`, `paths` and `marker_loading`.
- `tests/` runs the library on concrete values.
- `app/` is ordinary Rust around it: files, tasks, the host's screen and inputs, and everything in
  floating point. The library holds coordinates as the bits of single-precision numbers.
