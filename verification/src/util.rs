//! Building blocks shared by the models.

pub mod errors;
pub mod text;
pub mod timestamp;
pub mod token;
