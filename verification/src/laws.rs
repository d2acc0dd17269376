//! What the operations of the wallet are for: what every call gives back, and how calls relate.
//!
//! The laws speak of the calls themselves, and say what holds of their results in terms of what
//! went in: bytes, limbs, texts and nouns.

pub mod nouns;
pub mod lists;
pub mod names;
pub mod signers;
pub mod command;
pub mod constants;
pub mod balance;
pub mod planner;
pub mod sync;
