# rustyracer_engine

The core of the RustyRacer racing engine, with its behaviour stated in
contracts and proved with Verus.

- `src/` — the verified library: entity generation and sparse component
  storage, the world and scheduler, asset loading, compression and
  streaming bookkeeping, the developer console, keyboard state, gear
  selection, camera-mode cycling, octree cell placement and queries (over
  any cell geometry), bounded queues and the rollback history.
- `app/` — ordinary Rust around it: floating-point vehicle dynamics and
  cameras, the float boxes of the octree, the rapier3d physics world, egui
  editor windows, winit input and windows, SDL2 controllers, renet
  networking, kira audio, tokio loading tasks and the rayon job system.
- `tests/` — tests of the library.
