//! Bearer-token authentication and scoped authorization for a package
//! registry, together with the registry's model of crate dependencies and
//! the rules by which its error reporting is set up.

pub mod auth;
pub mod models;
pub mod sentry;
pub mod util;
