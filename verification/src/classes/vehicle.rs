use vstd::prelude::*;

use crate::classes::physical::CPhysicalPtr;

verus! {

/// A vehicle of the game.
pub struct CVehicle;

/// Address of a vehicle in the game's memory.
pub struct CVehiclePtr(pub usize);

impl CVehiclePtr {
    /// The vehicle seen as a physical entity (the same address).
    pub fn up(&self) -> (res: CPhysicalPtr)
        ensures
            res.0 == self.0,
    {
        CPhysicalPtr(self.0)
    }
}

} // verus!
