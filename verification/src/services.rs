//! Services that the routes lean on.

pub mod auth_verification;
