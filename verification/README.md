# cloth_lab

Deterministic cloth and textile simulation core, verified with Verus.

The library (`src/`) holds the parts of the simulator that decide and bookkeep: garment import
(OBJ text and the scene walk and surface assembly of binary glTF), triangle-mesh validation and
construction, structural edges, particle pinning and dragging, deterministic FNV-1a
fingerprints, the built-in garment catalogue and its grids, self-collision input validation and candidate classification, obstacle
validation, and the mannequin and textile catalogues. Every number the library touches is an
IEEE-754 binary64 bit pattern, so its contracts speak about exact values.

Floating-point work stays with the caller, in `app/`: decoding OBJ coordinates, composing glTF
node transforms, measuring triangle areas and edge lengths, textile parameters, obstacle
colliders, and error messages. The caller hands its results to the library as bit patterns or
flags, and the library's contracts say exactly what it does with each of them.

Layout:

- `src/garment.rs`, `src/garment/` — normalized garment assets, fingerprints, OBJ and GLB import.
- `src/cloth/` — particles, triangle-mesh cloth, interactive dragging.
- `src/topology.rs` — undirected mesh edges.
- `src/self_collision.rs`, `src/obstacle.rs`, `src/mannequin.rs`, `src/material.rs`,
  `src/template.rs` (the built-in garment catalogue and its vertex grids).
- `tests/` — scenario and edge-case tests run against the compiled library.
- `app/` — ordinary Rust around the library.
