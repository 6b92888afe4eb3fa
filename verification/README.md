# papyrus

The storage of the Starknet state, block by block, with Verus contracts and proofs.

- `src/state/`: state diffs are added (`append_state_diff`) and taken back (`revert_state_diff`), and
  the state of every past block can be read (`StateReader`). `model.rs` says what these operations
  mean over maps and sequences; `laws.rs` and `history.rs` state and prove what holds of them
  together: that the tables stay consistent, that taking a block back undoes it, what readers see
  after a block, and that earlier states never change.
- `src/node/`: the state as the node keeps it, with contracts that are deployed once, and its laws.
- `src/db.rs`, `src/storage.rs`: the tables as a transaction sees them, in the order of their keys.
- `src/state_diff.rs`, `src/block.rs`, `src/felt.rs`, `src/output/`: the data.
- `src/index_map.rs`, `src/classes.rs`: what is taken from `indexmap`, `starknet_api` and
  `cairo-lang-starknet`, each item with the contract that is believed of it.
- `app/`: the rows on disk (MDBX), the JSON form of gateway answers, and conversions.

Field elements are pairs of integers, the upper and the lower half of the 32 bytes. Class
definitions are carried through as they are.
