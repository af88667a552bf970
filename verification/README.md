# risico

The verified core of the RISICO wildfire-risk runner, written in Verus.

`src/` is the library. Every function in it carries a `requires`/`ensures`
contract that Verus proves:

- `streaming`, `concurrency`, `config`, `decimal`: tile plans over the model
  domain (raster windows or batches of legacy cells), the streaming
  configuration, memory budgets and how many tiles run at once. A budget
  such as `1.5GB` is split into its number and unit here; its amount is a
  floating-point value and is read in `app/`.
- `scratch`: the plane-oriented little-endian layout of the per-timestamp
  native output, and how per-tile scratches rejoin into domain order.
- `timeline`, `snapshots`, `warm_state`, `ragged`, `legacy`, `runner`: warm-state
  scheduling, snapshot discovery and selection, snapshot headers, ragged FWI
  histories, the legacy text formats, and the per-timestep decisions of a run.
- `inputs`, `catalog`, `zbin`, `grid`, `variables`: the input list, the `.zbin`
  grid format, cell index tables and the model variables.
- `tokens`, `text`, `config_text`, `netcdf_config`: the text formats the runner
  reads.

The public `law_*` proof functions state properties that span several
functions, such as that a tile plan partitions the domain, or that what is
encoded decodes back unchanged.

`app/` holds the command-line tool around the library: file I/O, YAML and
GeoTIFF reading, and the floating-point parts (byte-size amounts, resampling,
palettes, meteorological unit conversion, lattice inference).

`tests/` exercises the library on concrete values.
