# bud_zkvm

The verified core of the Bud zkVM toolchain, written in Verus.

- `src/isa.rs`: opcodes, ISA profiles and the 64-bit instruction word
  (encode, decode, profile checks), with round-trip laws.
- `src/bytecode.rs`: the `.budc` byte form of a program and its digest.
- `src/public_inputs.rs`: the public inputs of an execution proof, their
  canonical 192-byte layout and Keccak-256 digest; proof envelope and error types.
- `src/pipeline.rs`: argument loading and public-input assembly of a run,
  including the additive event-digest accumulator (limb 0 = sum of the
  logged values modulo 2^32, other limbs 0).
- `src/run.rs`: the decisions of an execution run (default sender account,
  context nonce, nonce raise on commit, prove/verify, commit or roll back)
  as a state machine that the caller drives with the outcome of each step.
- `src/lexer.rs`, `src/grammar.rs`, `src/parser.rs`, `src/ast.rs`: the BudL
  front end; `grammar.rs` states the grammar as spec functions and the
  recursive-descent parser is proved to follow it.
- `src/semantic.rs`: the type checker, proved against a spec of the analysis.
- `app/`: the command line (I/O, JSON, argument parsing) and the plonky3
  STARK configuration types. The command line offers `check`, `disasm`,
  `program-hash`, `hash-inputs` and `test`. The commands that compile to
  bytecode, run the VM, prove, verify or commit state (`run`, `prove`,
  `batch`, `deploy`, `call`, `verify`, and the `--chain-id` option they
  share) are not provided: the code generator, VM, state store and prover
  crates they need are not part of this project's sources.
- `tests/`: executable tests of the library.
