# abstreet

Verified rules from a traffic simulation's map importer and game screens.

- `src/tags.rs`: OpenStreetMap tags, a map from keys to values.
- `src/lane_specs.rs`: the tag patches handed to the lane interpreter, and the
  turning of the interpreter's lanes into a cleaned-up, left-to-right list of lane specs.
- `src/geometry.rs`: dropping looping and broken roads from a raw map.
- `src/warp.rs`: reading "warp to ID" input such as `r42`, and the warp screens' decisions.
- `src/routes.rs`: the route explorer's profile controls and goal selection.
- `app/`: the screens and the importer glue that call the lane interpreter, geometry,
  map lookups and drawing, and hand plain values to the library.

Lengths are kept as whole ten-thousandths of a metre, and routing penalties as
whole tenths, so that the library needs no floating point.
