//! The state as the node keeps it: contracts that are deployed once, and their storage.
//!
//! The tables of the state:
//! * `contracts`: contract address to block and class hash. Each row says at which block the
//!   contract was deployed and with what class. A contract can be deployed only once, so there is
//!   one row for each address.
//! * `contract_storage`: contract address, storage key and block to value. Each row says that at
//!   the block the key was changed to the value.
//! * `state_diffs`: block to its state diff.
//! * `markers`: the first block that is not there yet.

pub mod laws;
pub mod model;
pub mod rows;
pub mod state;
pub mod state_diff;
pub mod storage;
pub(crate) mod write;
