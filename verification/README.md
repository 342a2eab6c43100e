# optiflow

A read-only media inventory and exact-duplicate planner, written as a Verus
library with a thin command-line front end.

- `src/` is the verified library: path encoding, configuration layering and
  effective-policy fingerprints, command outcomes and diagnostics, discovery
  and observation decisions, exact-duplicate grouping, review plans, PNG byte
  validation, content-type sniffing and streaming content hashing, the steps
  of one observation attempt, artifact-set markers and their recovery
  decisions, the lossless-PNG review profile, media-probe parsing, bounded
  subprocess steps and the extension catalog rules. Each public function
  states its result in its `ensures`; laws that relate several calls are
  public proof functions.
- `app/` is the front end: argument parsing, reading files and metadata,
  running ffprobe, the state database, and printing. It also sequences the
  I/O that no library function can perform: the directory walk, the retry
  loop around observation attempts, writing, renaming and removing
  artifact-set files, and putting the scan report together from the
  library's results. It hands the library plain values and carries out the
  actions the library's step functions return.
- `tests/` exercise the library on concrete values.

Calls into outside crates (BLAKE3, content-type sniffing, CRC-32, zlib, the
PNG decoder, UUID and time, JSON Schema) go through small trusted wrappers whose contracts state
what the crates document.
