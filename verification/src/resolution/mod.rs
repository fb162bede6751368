//! Extra accounts of an instruction: how they are stored, and how their
//! addresses and privileges are resolved.

pub mod account;
pub mod passes;
pub mod pda;
pub mod pending;
pub mod seeds;
pub mod state;
