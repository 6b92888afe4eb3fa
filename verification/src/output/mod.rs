//! What a gateway answers.

pub mod transaction;
