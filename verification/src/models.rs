//! The records the registry keeps.

pub mod dependency;
pub mod token;
