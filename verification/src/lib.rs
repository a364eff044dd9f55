//! Admission-controlled worker pool for an embedding service.
//!
//! The crate's core is a fixed-size pool of compute workers together with an
//! admission gate that bounds how many requests may hold a worker at once.
//! The request handler orchestrates one request end-to-end: validate the
//! input, acquire a permit, check a worker out, hand the worker's result
//! back, and release everything again on every path.

pub mod args;
pub mod errors;
pub mod gate;
pub mod pool;
pub mod server;
pub mod trace;
