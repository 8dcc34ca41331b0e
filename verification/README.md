# nockpool_miner

The decision logic of a Nockchain pool miner, verified with Verus, and the
program around it.

- `src/noun.rs`: nouns, and the lists of nodes that store them
- `src/effect.rs`: what a mining kernel's answer means
- `src/candidate.rs`: the nouns that kernels are set to work on, and nonces
- `src/threads.rs`: how many threads a machine runs
- `src/miner.rs`: the mining loop as a state machine
- `src/benchmark.rs`: the benchmark and its summary
- `src/hexadecimal.rs`: hexadecimal text
- `src/telemetry.rs`: telemetry samples and their schedule
- `app/`: kernels, tasks, clocks and channels

`app/` needs the crates `nockapp`, `nockvm`, `kernels`, `zkvm_jetpack` and
`quiver` from the Nockchain and NockPool repositories.
