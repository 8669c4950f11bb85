# shbt-cf

Verified core of the SHBT precision-simulation workbench, written in Verus.

`src/` is the verified library:

| module | contents |
| --- | --- |
| `fixed` | Q64.64 fixed point: exact checked add/sub, 256-bit checked multiply rounded toward −∞, floor/fraction split |
| `phase` | phase accumulator in turns, kept in `[0, 1)` turn |
| `precision` | precision tiers, tier choice from conditioning loss, the adaptive solver's escalation decision |
| `floquet`, `truncation` | mode truncations of the Floquet and RCWA solvers; harmonic index ↔ order bijection |
| `random` | SplitMix64 seeding and Xoshiro256** stream |
| `fpenv` | flush-to-zero control-register logic (MXCSR / FPCR) |
| `telemetry`, `ring` | telemetry frames and the SPSC ring (FIFO, bounded, drop-counting) |
| `pipeline` | ingestion statistics: sequence-gap and latency accounting, 99th-percentile bucket |
| `kernel` | configuration of the high-precision checks |

`app/` holds what Verus does not take: binary64 and MPFR arithmetic, the
thread's control register, the Tokio ingestion task and the C ABI. `tests/`
exercises the library.
