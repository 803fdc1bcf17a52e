# mizer_core

The layout views of a lighting console's runtime, verified with Verus, and the
logic around them:

- `src/views.rs`: the views that publish the values of the layout controls
  (faders, dials, buttons, labels, timecodes, colours, step sequencers,
  levels), each replaced only when a new set of values differs.
- `src/path_map.rs`: the map from node paths to values the views hold.
- `src/float_bits.rs`: 64-bit floating-point values held as bit patterns; two
  count as the same value when their patterns agree or both are zeros.
- `src/coordinator.rs`: which nodes the layouts show, how they are split by
  type, how one tick's readings reach the views, the order the processors run
  in, and the layouts kept with a project.
- `src/layout_reads.rs`: what the UI reads of the views, with the defaults it
  falls back to, and the labels kept alive for it.
- `src/sacn_output.rs`: the sACN output's settings, destination and payload.
- `src/ordering.rs`: sorting and deduplication through `itertools`.

`app/` holds what Verus does not check: the views shared between threads, the
C ABI the UI calls, the tick driver around the pipeline, and the sACN network
output.
