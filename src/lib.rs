//! Columnar, null-aware arrays, equal-length chunks of them, and the rules
//! that govern converting and serializing them.

pub mod binary;
pub mod bitmap;
pub mod boolean;
pub mod chunk;
pub mod datatypes;
pub mod dispatch;
pub mod error;
pub mod primitive;
pub mod session;
pub mod stream;
