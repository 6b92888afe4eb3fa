//! The storage of the Starknet state, block by block: state diffs are added and taken back, and the
//! state of every past block can be read. Also the state as the node keeps it, and what a gateway
//! answers to requests on transactions.

pub mod block;
pub mod classes;
pub mod db;
pub mod felt;
pub mod index_map;
pub mod node;
pub mod output;
pub mod state;
pub mod state_diff;
pub mod storage;
