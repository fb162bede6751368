//! Type-length-value account state: a fixed base record followed by typed,
//! variable-length entries that are read and rewritten in place, and the list
//! of extra accounts that an instruction needs resolved.

pub mod error;
pub mod extension;
pub mod pod;
pub mod resolution;
pub mod state;
pub mod tlv;
