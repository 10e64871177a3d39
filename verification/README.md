# celesta

The verified core of the Celesta video tools, written in Verus.

`src/` is the library. Every function in it carries a contract that Verus
proves, and the `*_laws.rs` modules state and prove properties that span
several functions:

- `time`, `gcd`, `time_laws`: exact rational time (`value / timescale`),
  reduction to lowest terms, exact sums, differences and comparisons.
- `clock`, `clock_laws`: the frame-accurate playhead.
- `timeline`, `timeline_laws`: which item is active at a time, clip-local
  time, lip-sync mouth shapes, clip frame ranges and the in/out export
  markers.
- `keyframes`, `keyframes_laws`: setting and removing keyframes, with a
  stable sort by time.
- `animation`: keyframed properties and the exact lookup of the segment a
  time falls in.
- `export`, `export_laws`, `encoding`: export planning (dimensions, frame
  counts, the window a range selects), encoder settings and timecode
  arguments.
- `exporter`, `exporter_laws`: the exporter's options and output checks, and
  the order in which an export renders, mixes, muxes and publishes, step by
  step, with cancellation.
- `evaluation`, `evaluation_laws`: which clips the audio mix plays (mute,
  solo, disabled tracks and clips), which clips a track shows at a time, and
  the portrait a dialogue shows.
- `layer_tree`, `layer_tree_laws`: component clips in an evaluated layer
  tree: listing them, hiding them, and splicing in their resolutions.
- `texture_cache`, `texture_cache_laws`: the renderer's per-frame texture
  cache.
- `workers`, `workers_laws`: which results of the editor's background
  workers are taken.
- `timecode`: `HH:MM:SS(.mmm)` timecodes.
- `frame`, `readback`: GPU readback layouts (RGBA8 and I420), unpadding, and
  the pool of readback slots kept in flight.
- `pcm_cache`: the on-disk format of decoded audio.
- `history`: undo/redo with revisions and saved state.
- `tracks`, `tracks_laws`: the editor's operations on tracks and clips:
  adding, reordering, renaming, toggling and deleting tracks, moving,
  inserting and deleting clips, and the clips that use an asset.
- `characters`, `characters_laws`: portraits, the expressions that use an
  asset, and keeping dialogue expressions valid when one goes.
- `naming`, `summary`, `model`: ids, slugs, file names and labels.

`app/` holds what Verus does not see: JSON forms of the library's types,
the floating-point easing curves and layouts, the audio cache's file
handling, and the exporter's command line.

`tests/` exercises the library from the outside.
