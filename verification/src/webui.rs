//! Commands sent by the graphical interface.
use vstd::prelude::*;

verus! {

/// A command of the graphical interface.
#[derive(Clone, Debug, Eq, PartialEq)]
pub enum Command {
    /// Try to open a public port.
    OpenPublic {},
    /// Use the player at this position of the offered list.
    SelectPlayer { idx: usize },
    /// Connect to the peer with this friend code.
    AddConnection { code: String },
}

} // verus!
