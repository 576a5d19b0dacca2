# heisensim

Deterministic chaos testing for Kubernetes workloads: an in-memory
simulation engine, seed exploration and
bisection, timeline diffs between seeds, fault planning for live clusters,
and syscall-level fault injection (vDSO time warping, ptrace-based connect
and socket faults).

The library under `src/` is written in Verus: every function carries a
contract that the verifier proves, and the laws the library keeps (a
partition cuts both ways, the earliest timer fires first, a rendered seed
parses back, a bisection finds the failure threshold, a finished timeline
starts with the start event and ends with the end event, a run whose
warm-up covers its duration injects nothing, ...) are proof functions or
postconditions.

That the same seed gives the same timeline is shown by the tests, not
proved: every random draw of a run comes from a seeded `rand` generator
whose output the contracts do not fix (rand does not promise it across
versions or platforms), and the delay between faults is drawn as a
floating-point number outside the library.

## Layout

- `src/types.rs`, `src/seed.rs`, `src/clock.rs`, `src/process.rs`,
  `src/net.rs`, `src/rng.rs`: virtual time, seeds, the timer queue, the
  simulated process table and network.
- `src/fault/`: fault scheduling and the seed explorer.
- `src/intercept/`: syscall interception decisions, ELF and `/proc` parsing,
  the vDSO trampoline, the ptrace thread table, the injection control block.
- `src/k8s/`: namespace fencing, fault commands and their reverts, pod and
  service discovery, probes declared by pods.
- `src/probe.rs`: probe configurations and what a probe's result means.
- `src/diverge.rs`: preview-environment API types and decisions.
- `src/cli/`: argument values, the simulation run (`dst_run.rs`), seed
  exploration, timeline diffs, the configuration file, RBAC manifests and
  report text.
- `app/`: the command line itself: argument parsing, files, processes,
  ptrace and the float-valued parts (time offsets, speeds, fault delays).
- `tests/`: tests of the library.

Verify with Verus on `src/lib.rs`; the command line is an ordinary Cargo
binary crate around the library.
