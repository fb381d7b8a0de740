# Clumpiverse

A playground universe where everything is a mass-spring-damper lattice.

- `src/` is the verified library: the lattice of Masses (ids, matter,
  connections), the nine topologies that decide how a new Mass connects
  (none, mono, pair, hair, strut, girder, pyramid, plank, brick), grabbing
  and releasing, the panel settings, and which layers and colours a frame
  draws. Every connection is mutual and names an existing Mass; the proofs
  show that each operation keeps it so.
- `app/` is the WebAssembly front end: the floating-point physics of each
  Mass, pointer hit tests, and drawing on a 2D canvas.
- `tests/` exercises the library on concrete lattices.
