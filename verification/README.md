# stem

The core of a location-tracking app's backend, verified with Verus: the map
query text and how it is routed, the decimation arithmetic, the grid index
choices, track segmentation and timelines, cache eviction, parsing of
`/proc` text, place tags from GeoJSON properties, and the small text and
decision rules around them.

- `src/` is the library. Every function in it is verified against its
  `requires`/`ensures`; the public `proof fn`s state properties that span
  several functions (for example that a decimated sample lands under its
  target, that merging fetched neighbours never loses or reorders the
  bounded points, or that the segments of a track share their boundary
  records).
- `tests/` runs the library on concrete inputs.
- `app/` is ordinary Rust around the library: reading files and the
  environment, floating-point geometry and statistics, and conversions from
  outside types (`serde_json::Value`, `SystemTime`) to the library's own.

Calls into other crates (`itertools`, `rand`, `base64`) and a few std
functions sit behind small trusted wrappers whose contracts are stated next
to them.
