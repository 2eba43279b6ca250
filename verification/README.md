# monero_consensus

The context that the next block of a Monero chain is validated in, and the decisions of a scanner
that walks the chain block by block. Everything under `src/` is verified with Verus.

- `src/context.rs`: the chain context, how it is set up, read and updated.
- `src/weight.rs`: the windows of recent block weights, and their medians.
- `src/hardforks.rs`, `src/difficulty.rs`: what the caches beside the context are set up with.
- `src/calls.rs`: which blocks a scan calls for, and how they are handed on.
- `src/scan.rs`: how blocks are prepared and verified, and what each verified block leads to.
- `src/startup.rs`: the nodes, the network and the first cache of a scan.
- `app/`: the async services around the library, for a node that brings its own database, difficulty
  and hard fork caches and block verifier.
- `tests/`: the tests.

What the functions of a module keep together is stated by its public proof functions, whose names
begin with `law_`.
