//! Neighbourhood-probe scoring of byte sequences against a shared byte-keyed
//! weight table.

pub mod library;
pub mod probe;
pub mod candidates;
pub mod score;
