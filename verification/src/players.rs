//! Media players, the events they raise, and the lists that find them.
pub mod debug;
pub mod events;
pub mod mprisplayer;
pub mod netflix_chrome;
pub mod vlchttp;
pub mod vlcrc;

use vstd::prelude::*;
use crate::players::netflix_chrome::NetflixPlayerList;
use crate::players::vlchttp::VlcHttpList;
use crate::players::vlcrc::VlcRcList;

verus! {

/// All the kinds of players the application can drive, searched together.
pub struct BulkSyncPlayerList {
    pub vlcrc: VlcRcList,
    pub vlchttp: VlcHttpList,
    pub netflix_chrome: NetflixPlayerList,
}

impl BulkSyncPlayerList {
    pub fn new() -> (r: Self) {
        BulkSyncPlayerList {
            vlcrc: VlcRcList::new(),
            vlchttp: VlcHttpList::new(),
            netflix_chrome: NetflixPlayerList::new(),
        }
    }
}

} // verus!
