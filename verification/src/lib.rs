//! The context of a Monero chain, and the decisions of a scanner that follows one.

pub mod calls;
pub mod context;
pub mod difficulty;
pub mod hardforks;
pub mod scan;
pub mod startup;
pub mod weight;
