# matroska

A Matroska / WebM (EBML) reader and writer whose behaviour is stated in
Verus contracts and proved.

- `src/ebml/`: EBML primitives (VINTs, element IDs and sizes, integer,
  float, date, string and binary element data), the element schema, the
  EBML Header and the parse errors.
- `src/permutation.rs`: the unordered scan of the fields of a master
  element (Void and unknown elements skipped, CRC-32 elements checked),
  stated as spec functions over bytes.
- `src/elements/`: the Segment's top-level elements (SeekHead, Info,
  Tracks, Cluster and their children) and SimpleBlock headers.
- `src/serializer/`: writers for all of the above, over a byte buffer. Laws
  state that VINTs, Element IDs, unsigned integer elements, the EBML Header,
  SeekHeads and SimpleBlock headers read back as written (`roundtrip.rs`,
  `header_roundtrip.rs`, `seek_roundtrip.rs`, `block_roundtrip.rs`), and
  that a TrackEntry takes what its size counts (`size_law.rs`).
- `src/demuxer.rs`, `src/muxer.rs`: the decisions of a demuxer (headers,
  track selection, packets of clusters) and of a muxer (headers, clusters
  gathered from packets).
- `src/fourcc.rs`: FourCC codes.
- `app/`: glue to the `av-format` demuxer and muxer traits, which does the
  I/O and the float conversions.
