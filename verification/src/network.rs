//! Network addressing: friend codes, which addresses can be made public, STUN mappings
//! and ports.
pub mod friendcodes;
pub mod publicaddr;
pub mod utils;
pub mod stun;
