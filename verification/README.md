# wt_benchmarks

The workload side of a benchmark suite for the WorkTable storage engine:
everything a run is made of before it touches a table, written in Verus and
proved against its contracts.

- `src/` is the verified library. It holds the deterministic generator every
  workload draws from, the YCSB A-F streams and the acknowledged-key frontier
  Workload D reads against, the TATP and LinkBench mixes, requests and keys,
  the key/value payloads and checksums every engine must agree on, the
  plain-vector layer of the layered micro-benchmark, the latency summaries,
  the consumer profiles' keys, rows and text columns, the fan-out key spread,
  and the command-line grammar of every runner. Calls into the standard
  library that Verus has no specification for go through a handful of small
  trusted wrappers, each with a doc comment saying what it assumes.
- `tests/` runs the library on concrete inputs, including the suite's own
  scenarios.
- `app/` is the ordinary Rust around it: the YCSB and TATP runners that
  drive the tables with what the library generates and decides, the paired
  retry analysis, reading arguments and the environment, the clock and CPU
  counters, JSON output, timer threads, the runtime dispatch, and the
  floating-point Zipf tables, request shares and statistics.

The storage engine's tables are declared by its macros, which the verified
library cannot hold; they sit with the runners in `app/`.
