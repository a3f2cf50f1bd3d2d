//! The key-length-value packet format.

pub mod error;
pub mod decode;
pub mod encode;
pub mod laws;
pub mod length;
pub mod record;
pub mod wire;
