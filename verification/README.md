# perun_solana_program

Perun state channels on Solana with EVM-compatible signatures, written in
Verus: the decision logic of every instruction of the on-chain program is
verified against a specification of what it does.

## Layout

- `src/` — the verified library.
  - `error.rs` — the program's errors and their numeric codes.
  - `multi.rs` — cross-chain assets and the secp256k1 signature check.
  - `sol.rs` — the Solidity forms of parameters and states, their ABI
    encoding (by `alloy_sol_types`), and the channel identifier (Keccak-256
    of the encoded parameters).
  - `perun_types.rs` — participants, parameters, states, control bits and
    the hash that both participants sign.
  - `instructions.rs` — the instruction set and the accounts the program reads.
  - `processor.rs` — each instruction as a function from what the program
    reads (accounts, channel, clock, rent) to what it does (the channel
    account to create, store or close, the lamport balances, the token
    transfers), with its specification.
  - `laws.rs` — properties that span instructions: consistent control bits,
    monotone versions, conserved totals and lamports, at most one funding and
    one withdrawal per party, and more.
- `tests/` — scenario and unit tests, run against the real outside crates.
- `app/` — the Solana side: Borsh decoding of instructions and channel
  accounts, the clock and rent sysvars, and carrying out a plan with
  cross-program invocations.
