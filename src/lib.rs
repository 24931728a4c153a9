pub mod error;
pub mod laws;
pub mod ledger;
pub mod processor;
pub mod random;
pub mod reward;
pub mod state;
