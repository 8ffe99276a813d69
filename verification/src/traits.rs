//! The interface a media player offers to the synchroniser.
pub mod sync;
