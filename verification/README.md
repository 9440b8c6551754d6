# quinn_congestion

Verified decision logic of two QUIC congestion controllers, written in Verus.

- `src/clock.rs`: the time model (nanosecond clock readings) and the
  saturating millisecond distance between two readings.
- `src/filter.rs`: the windowed minimum and per-round maximum RTT filters.
- `src/copa.rs`: Copa's integer window machine, one method per step of an
  ACK, plus congestion events and MTU updates, with a check for each step's
  precondition.
- `src/newbbr2.rs`: the BBRv2 driver: configuration, the engine's set-up,
  and the split of each congestion event into ACKed and lost packets.
- `app/`: the runtime side: `Instant`s, the `Controller` trait objects,
  Copa's floating-point rate decisions, and the BBRv2 engine interface.
- `tests/`: tests of the library on concrete values.
