# neutron_sim

Verified bookkeeping of a Monte Carlo neutron transport simulation.

- `src/diagnostics/`: per-bin neutron and fission counters (`bins`), the grid
  of bins (`geometry_diagnostics`), halt causes, the convergence measure
  between two generations held as an exact fraction (`convergence`), and the
  run diagnostics with their tracking rules (`diagnostics_tracking`). The
  diagnostics are generic over the position and distance values they record.
- `src/geometry/`: the discrete rules of the constructive solid geometry:
  which part holds a point where parts overlap, and which parts the
  material lookup keeps in its cache.
- `app/`: the floating-point side: vectors, bounding boxes and the
  floating-point halves of the part-cache and simulation-range rules, and
  the diagnostics with their `f64` values and logging, built on the library.

The simulation's `Components` container (parts, materials and their cached
properties) is not part of this crate: the part shapes and material data it
holds are defined elsewhere. Its discrete rules are here, in
`src/geometry/components.rs`, with the floating-point halves in
`app/components.rs`. Likewise, looking up the bin of a position belongs to
the bin geometry, so the bin-tracking functions take the bin index.
