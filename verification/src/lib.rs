//! Builds Tinfoil index files: a manifest of remote file locators is
//! serialized as JSON, optionally compressed, optionally wrapped in a
//! hybrid-encrypted container, and framed with a fixed header for an
//! external reader.

pub mod compress;
pub mod decimal;
pub mod encrypt;
pub mod error;
pub mod filter;
pub mod index;
pub mod json;
pub mod scan;
pub mod service;
pub mod tinfoil;
