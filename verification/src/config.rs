//! How a player is kept in step with its peers.
use vstd::prelude::*;
use crate::messages::{TimeDelta, UserId};

verus! {

/// The settings of one synchronised player: who it is, how far it may drift from its
/// peers before it is corrected, how far a position may move before it counts as a
/// jump, and whether moving backwards counts as a jump too.
#[derive(Copy, Clone, Eq, PartialEq, Structural, Debug)]
pub struct SyncConfig {
    pub id: UserId,
    pub pos_err_threshold: TimeDelta,
    pub jump_threshold: TimeDelta,
    pub jump_if_backwards: bool,
}

/// Sixteen random bytes.
///
/// Calls `rand::random::<[u8; 16]>()`, which draws from the thread-local generator;
/// nothing is promised of the bytes.
#[verifier::external_body]
fn random_id_bytes() -> (r: [u8; 16]) {
    rand::random()
}

/// The defaults that a player starts with, for the given id: drift up to 400 ms, a
/// jump is a move of more than 3 s, and moving backwards is no jump by itself.
pub open spec fn default_config(id: UserId) -> SyncConfig {
    SyncConfig {
        id,
        pos_err_threshold: TimeDelta { millis: 400 },
        jump_threshold: TimeDelta { millis: 3000 },
        jump_if_backwards: false,
    }
}

impl SyncConfig {
    /// The default settings with a random id.
    pub fn new() -> (r: Self)
        ensures
            r == default_config(r.id),
    {
        Self::default()
    }

    /// The default settings for the given id.
    pub fn with_id(id: UserId) -> (r: Self)
        ensures
            r == default_config(id),
    {
        SyncConfig {
            id,
            pos_err_threshold: TimeDelta::from_millis(400),
            jump_threshold: TimeDelta::from_millis(3000),
            jump_if_backwards: false,
        }
    }
}

impl Default for SyncConfig {
    /// The default settings with a random id.
    fn default() -> (r: Self)
        ensures
            r == default_config(r.id),
    {
        let id_bytes = random_id_bytes();
        let id = UserId::from_bytes(&id_bytes);
        Self::with_id(id)
    }
}

} // verus!
