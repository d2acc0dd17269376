//! The create-transaction and balance-sync core of a Nockchain wallet.
//!
//! Every decision the wallet takes between two conversations with the outside
//! (its kernel, a node, the input planner) is a function of this crate; talking
//! to the outside is left to the caller.

pub mod order;
pub mod text;
pub mod noun;
pub mod digest;
pub mod error;
pub mod names;
pub mod wallet;
pub mod signers;
pub mod command;
pub mod constants;
pub mod balance;
pub mod planner;
pub mod sync;
pub mod laws;
