//! Access to the durable tables.

pub mod bbs_repository;
pub mod responses_cache;
pub mod memory;
