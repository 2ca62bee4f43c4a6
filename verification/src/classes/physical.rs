use vstd::prelude::*;

verus! {

/// Offset of the health (`f32`) in a physical entity.
pub const OFF_M_HEALTH: usize = 0x280;

/// Offset of the maximum health (`f32`) in a physical entity.
pub const OFF_M_MAX_HEALTH: usize = 0x284;

/// A physical entity of the game (pedestrians and vehicles are ones).
pub struct CPhysical;

/// Address of a physical entity in the game's memory.
pub struct CPhysicalPtr(pub usize);

impl CPhysicalPtr {
    /// Where the entity's health is stored.
    pub fn health_address(&self) -> (res: usize)
        requires
            self.0 + OFF_M_HEALTH <= usize::MAX,
        ensures
            res == self.0 + OFF_M_HEALTH,
    {
        self.0 + OFF_M_HEALTH
    }

    /// Where the entity's maximum health is stored.
    pub fn max_health_address(&self) -> (res: usize)
        requires
            self.0 + OFF_M_MAX_HEALTH <= usize::MAX,
        ensures
            res == self.0 + OFF_M_MAX_HEALTH,
    {
        self.0 + OFF_M_MAX_HEALTH
    }
}

} // verus!
