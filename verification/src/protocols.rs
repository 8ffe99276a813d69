//! Message protocols carried in 32-byte frames.
pub mod sync;
