# techfiesta_minter

A CIS-2 non-fungible token contract for the Concordium chain, with
sponsored ("permit") updates, whose logic is verified with Verus.

- `src/` is the verified library: the contract state (`state.rs`) kept in
  vector-backed sets and maps (`collections.rs`), its mathematical model
  (`model.rs`), the entrypoints (`contract.rs`), token-id text and the
  supported standards (`metadata.rs`), errors, parameter and event types,
  the reading of the entrypoints' parameters from their bytes
  (`parameter.rs`) and of signed permit payloads (`payload.rs`), the snapshot used to
  store the state (`snapshot.rs`), the properties that hold across
  operations (`laws.rs`) and those that hold across any history of updates
  (`history.rs`).
- `app/` is the chain shell: the `#[init]`/`#[receive]` entrypoints that
  hand the library the parameter bytes, load and store the state, log the events the library
  answers and perform host calls (receive hooks, hashing, signature checks),
  plus the backend server's request types.
- `tests/` runs the library on concrete values.
