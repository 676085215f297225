//! Server-side logic of a 2ch-style textboard: route analysis, Shift_JIS form
//! decoding, sanitisation, tripcodes, rate limits, the state machine of a
//! post and `.dat` rendering.
//!
//! The library decides and computes; it does no I/O. Its callers read
//! requests, talk to the databases, and send what the library hands back.

pub mod authed_cookie;
pub mod board;
pub mod board_config;
pub mod cap;
pub mod cookies;
pub mod datetime;
pub mod grecaptcha;
pub mod hashes;
pub mod inmemory_cache;
pub mod metadent;
pub mod random;
pub mod repositories;
pub mod response;
pub mod route_paths;
pub mod routes;
pub mod sanitize;
pub mod services;
pub mod sjis;
pub mod text;
pub mod thread;
pub mod tinker;
pub mod trip;
pub mod turnstile;
pub mod utils;
