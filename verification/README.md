# waremax

The verified core of a deterministic warehouse-robotics simulator: the
discrete-event kernel, the warehouse graph, traffic and reservation
bookkeeping, deadlock detection and resolution, dispatching policies,
configuration validation and the fixed parts of root-cause reports.

Everything under `src/` is checked by Verus: each public function carries a
`requires`/`ensures` contract over mathematical models (`Seq`, `Set`, `Map`,
spec functions), and the library's laws are stated as public proof
functions named `law_*`.

## Layout

- `src/kernel.rs`, `src/scheduled.rs` – the event queue; events leave in time
  order, ties in scheduling order, and the clock never runs backwards.
- `src/graph.rs`, `src/map.rs` – nodes, edges (two-way edges get a reverse
  edge) and neighbours that skip blocked nodes and edges.
- `src/traffic.rs`, `src/deadlock.rs`, `src/reservation.rs` – capacities and
  occupancy, the wait-for graph and its cycles, exclusive time windows.
- `src/policies.rs`, `src/resolution.rs` – allocation, station assignment,
  batching, priority, traffic and deadlock-resolution policies.
- `src/entities.rs`, `src/robot_state_machine.rs`, `src/event.rs` – robots,
  stations, orders, the robot state machine and simulation events.
- `src/config/` – scenario, map and storage settings and their validation.
- `src/analysis.rs`, `src/trace.rs`, `src/metrics.rs`, `src/api.rs` – report
  vocabulary and text, the event trace buffer, export switches and service
  settings.
- `src/rng.rs` – the seeded ChaCha8 generator, behind trusted wrappers.
- `app/` – ordinary Rust around the library: file and environment reading,
  real-valued time and geometry, routing, random distributions, batteries,
  maintenance clocks and failure models, metrics and root-cause statistics.

Real-valued quantities cross into the library as order keys (`TimePoint`),
as IEEE-754 bit patterns (`*_bits` fields) or as comparisons made by the
caller; the library never computes with floating point.
