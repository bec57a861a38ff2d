//! A single mutable record that pairs a machine-learning model with a dataset
//! and tracks an amount, a never-decreasing accuracy, a version counter and a
//! JSON payload, together with the operations that create, update and read it.

pub mod accuracy;
pub mod address;
pub mod contract;
pub mod decimal;
pub mod error;
pub mod history;
pub mod state;

pub use accuracy::{is_acceptable_accuracy, Accuracy};
pub use address::{is_owner, AccountAddress, Address, ContractAddress};
pub use contract::{init, receive, view, view_free, view_owner, view_payer};
pub use error::Error;
pub use state::{Amount, InitSchema, RecvSchema, State, ViewFree};
