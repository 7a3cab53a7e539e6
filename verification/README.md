# spire_kernel

The symbolic core of the SPIRE particle-physics kernel, written in Verus:
quantum numbers and their conjugation, gauge groups and conservation
checks, Lagrangian-derived vertex and propagator rules with UFO export,
tree-level topology planning and diagram layout, Catani–Seymour dipole enumeration, CSV
table scanning, LaTeX rendering of derivations, request throttling
decisions, canonical JSON and provenance records.

Layout:

- `src/` — the verified library. Every public function carries a
  `requires`/`ensures` contract over spec functions and views; the laws of
  the library (double conjugation, conservation symmetries, order
  independence of vertex lookup, completeness of the diagram plan, backoff
  monotonicity, uniqueness of canonical JSON, provenance round trip, …) are
  public proof functions next to the code they speak of. Calls into `sha2`,
  `hex` and `serde_json` go through small trusted wrappers whose doc
  comments say what is assumed of them.
- `tests/` — executable tests of the library.
- `app/` — the unverified shell: floating-point numerics (phase space,
  integration, MCMC, ODEs, PDFs), file and network I/O, `petgraph`
  diagrams, `serde` copies of library types, and the external-solver
  process runner. It calls the library for every decision it can.
