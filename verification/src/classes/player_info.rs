use vstd::prelude::*;

use crate::classes::wanted::CWantedPtr;

verus! {

/// Offset of the wanted state inside the player info.
pub const OFF_M_WANTED: usize = 0x830;

/// The information the game keeps about a player.
pub struct CPlayerInfo;

/// Address of a player info in the game's memory.
pub struct CPlayerInfoPtr(pub usize);

impl CPlayerInfoPtr {
    /// The player's wanted state, which is embedded in the player info.
    pub fn get_wanted(&self) -> (res: CWantedPtr)
        requires
            self.0 + OFF_M_WANTED <= usize::MAX,
        ensures
            res.0 == self.0 + OFF_M_WANTED,
    {
        CWantedPtr(self.0 + OFF_M_WANTED)
    }
}

} // verus!
