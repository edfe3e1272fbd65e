//! A content-addressable object store: immutable objects kept under the
//! SHA-1 of their framed contents, inside a control directory found by
//! walking up from a starting location.

pub mod config;
pub mod decimal;
pub mod error;
pub mod object;
pub mod path;
pub mod repo;
pub mod utils;
pub mod zlib;
