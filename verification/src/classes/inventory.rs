use vstd::prelude::*;

use crate::classes::ammo_repository::CAmmoItemRepositoryPtr;

verus! {

/// Offset of the ammunition repository inside an inventory.
pub const OFF_M_AMMO_REPOSITORY: usize = 0x48;

/// A pedestrian's inventory.
pub struct CInventory;

/// Address of an inventory in the game's memory.
pub struct CInventoryPtr(pub usize);

impl CInventoryPtr {
    /// The inventory's ammunition repository, which is embedded in it.
    pub fn get_ammo_repositoy(&self) -> (res: CAmmoItemRepositoryPtr)
        requires
            self.0 + OFF_M_AMMO_REPOSITORY <= usize::MAX,
        ensures
            res.0 == self.0 + OFF_M_AMMO_REPOSITORY,
    {
        CAmmoItemRepositoryPtr(self.0 + OFF_M_AMMO_REPOSITORY)
    }
}

} // verus!
