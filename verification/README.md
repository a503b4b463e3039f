# hearth_engine

The data-oriented core of the Hearth voxel engine, written in Verus: the
logic in `src/` carries contracts that Verus proves. A few functions there
carry no contract because there is nothing to state: fresh random
identifiers, starting a measurement (which records nothing), and handing work
to a worker pool that has no workers yet.

- `src/` — the verified library: error texts, the game gateway queue, system
  scheduling and frame decisions, greedy and terrain meshing, texture-atlas
  packing, binding and GPU-type registries, collision bookkeeping, disconnect
  tracking, container pools, engine configuration checks.
- `tests/` — ordinary Rust tests of the library.
- `app/` — the unverified shell around it: process-wide singletons behind
  locks, clocks, sleeps and threads, panic catching, floating-point geometry
  (camera, vertices, texture coordinates), and serde/thiserror copies of
  library types.
