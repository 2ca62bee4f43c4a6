use vstd::prelude::*;

use crate::classes::physical::CPhysicalPtr;

verus! {

/// Offset of the pointer to the player info in a pedestrian.
pub const OFF_M_PLAYER_INFO: usize = 0x10A8;

/// Offset of the pointer to the inventory in a pedestrian.
pub const OFF_M_INVENTORY: usize = 0x10B0;

/// Offset of the seatbelt flag byte in a pedestrian.
pub const OFF_M_SEATBELT: usize = 0x143C;

/// Value written for a fastened seatbelt: a four-byte `i32` whose low byte is the flag byte, so
/// the three bytes after it are cleared too.
pub const SEATBELT_ON: i32 = 0xC9;

/// Value written for an unfastened seatbelt (four bytes, as `SEATBELT_ON`).
pub const SEATBELT_OFF: i32 = 0xC8;

/// Address of a pedestrian in the game's memory; never null.
pub struct CPedPtr(pub(crate) usize);

/// A pedestrian of the game.
pub struct CPed;

impl CPedPtr {
    /// The pedestrian's address, in specifications.
    pub closed spec fn addr(&self) -> usize {
        self.0
    }

    /// A pedestrian at a non-null address.
    pub(crate) fn from_raw(raw: usize) -> (res: CPedPtr)
        ensures
            res.addr() == raw,
    {
        CPedPtr(raw)
    }

    /// The pedestrian's address.
    pub fn address(&self) -> (res: usize)
        ensures
            res == self.addr(),
    {
        self.0
    }

    /// The pedestrian seen as a physical entity (the same address).
    pub fn up(&self) -> (res: CPhysicalPtr)
        ensures
            res.0 == self.addr(),
    {
        CPhysicalPtr(self.0)
    }

    /// Where the pointer to the pedestrian's player info is stored.
    pub fn player_info_address(&self) -> (res: usize)
        requires
            self.addr() + OFF_M_PLAYER_INFO <= usize::MAX,
        ensures
            res == self.addr() + OFF_M_PLAYER_INFO,
    {
        self.0 + OFF_M_PLAYER_INFO
    }

    /// Where the pointer to the pedestrian's inventory is stored.
    pub fn inventory_address(&self) -> (res: usize)
        requires
            self.addr() + OFF_M_INVENTORY <= usize::MAX,
        ensures
            res == self.addr() + OFF_M_INVENTORY,
    {
        self.0 + OFF_M_INVENTORY
    }

    /// The write that fastens (`on`) or unfastens the seatbelt: its address and the four-byte
    /// `i32` value written there.
    pub fn set_seatbelt(&self, on: bool) -> (res: (usize, i32))
        requires
            self.addr() + OFF_M_SEATBELT <= usize::MAX,
        ensures
            res.0 == self.addr() + OFF_M_SEATBELT,
            res.1 == if on {
                SEATBELT_ON
            } else {
                SEATBELT_OFF
            },
    {
        let byte = if on {
            SEATBELT_ON
        } else {
            SEATBELT_OFF
        };
        (self.0 + OFF_M_SEATBELT, byte)
    }
}

} // verus!
