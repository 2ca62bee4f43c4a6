use vstd::prelude::*;

verus! {

/// Offset of the wanted "heat" value (`u32`) that goes with the wanted level.
pub const OFF_M_N_WANTED_LEVEL: usize = 0x20;

/// Offset of the wanted level (`u32`, in stars).
pub const OFF_M_WANTED_LEVEL: usize = 0xB8;

/// A player's wanted state.
pub struct CWanted;

/// Address of a wanted state in the game's memory.
pub struct CWantedPtr(pub usize);

/// A `u32` to be written at an address of the game's memory.
pub struct WantedWrite {
    pub address: usize,
    pub value: u32,
}

/// The heat value that goes with a wanted level in stars: 0, 50, 180, 550, 1200 and 3800 for
/// zero to five stars, and 5000 above.
pub open spec fn wanted_heat(level: u32) -> u32 {
    if level == 0 {
        0
    } else if level == 1 {
        50
    } else if level == 2 {
        180
    } else if level == 3 {
        550
    } else if level == 4 {
        1200
    } else if level == 5 {
        3800
    } else {
        5000
    }
}

impl CWantedPtr {
    /// Where the wanted level is stored.
    pub fn wanted_level_address(&self) -> (res: usize)
        requires
            self.0 + OFF_M_WANTED_LEVEL <= usize::MAX,
        ensures
            res == self.0 + OFF_M_WANTED_LEVEL,
    {
        self.0 + OFF_M_WANTED_LEVEL
    }

    /// The heat value that goes with a wanted level.
    pub fn convert_wanted_level(level: u32) -> (res: u32)
        ensures
            res == wanted_heat(level),
    {
        match level {
            0 => 0,
            1 => 50,
            2 => 180,
            3 => 550,
            4 => 1200,
            5 => 3800,
            _ => 5000,
        }
    }

    /// The two writes that set the wanted level, in order: the level itself, then its heat value.
    pub fn set_wanted_level(&self, new_level: u32) -> (res: (WantedWrite, WantedWrite))
        requires
            self.0 + OFF_M_WANTED_LEVEL <= usize::MAX,
        ensures
            res.0.address == self.0 + OFF_M_WANTED_LEVEL,
            res.0.value == new_level,
            res.1.address == self.0 + OFF_M_N_WANTED_LEVEL,
            res.1.value == wanted_heat(new_level),
    {
        (
            WantedWrite { address: self.0 + OFF_M_WANTED_LEVEL, value: new_level },
            WantedWrite {
                address: self.0 + OFF_M_N_WANTED_LEVEL,
                value: Self::convert_wanted_level(new_level),
            },
        )
    }
}

/// Law: the heat value never decreases as the wanted level rises, and no level clears more
/// heat than zero stars.
pub proof fn law_wanted_heat_monotone(a: u32, b: u32)
    requires
        a <= b,
    ensures
        wanted_heat(a) <= wanted_heat(b),
        wanted_heat(a) == 0 <==> a == 0,
{
}

} // verus!
