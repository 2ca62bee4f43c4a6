use vstd::prelude::*;

verus! {

/// Ammunition count that a refill sets for every ammunition type.
pub const REFILL_AMMO_AMOUNT: u32 = 9999;

/// Wanted level that "never wanted" keeps the player at.
pub const NEVER_WANTED_LEVEL: u32 = 0;

/// Highest wanted level that raising the level reaches.
pub const MAX_WANTED_LEVEL: u32 = 5;

/// The lowered wanted level, as `(level as i32 - 1).max(0) as u32` computes it: one less, but
/// not below zero, where levels above `i32::MAX` count as negative. `None` for `0x8000_0000`,
/// where the subtraction overflows `i32`.
pub open spec fn lowered_wanted_level(level: u32) -> Option<u32> {
    if level == 0x8000_0000 {
        None
    } else if level == 0 || level > 0x8000_0000 {
        Some(0)
    } else {
        Some((level - 1) as u32)
    }
}

/// The raised wanted level, as `(level + 1).min(5)` computes it; `None` for `u32::MAX`, where
/// the addition overflows.
pub open spec fn raised_wanted_level(level: u32) -> Option<u32> {
    if level == u32::MAX {
        None
    } else if level + 1 < MAX_WANTED_LEVEL {
        Some((level + 1) as u32)
    } else {
        Some(MAX_WANTED_LEVEL)
    }
}

/// The wanted level after lowering it by one star.
pub fn decrease_wanted(level: u32) -> (res: Option<u32>)
    ensures
        res == lowered_wanted_level(level),
{
    if level == 0x8000_0000 {
        None
    } else if level == 0 || level > 0x8000_0000 {
        Some(0)
    } else {
        Some(level - 1)
    }
}

/// The wanted level after raising it by one star, up to five.
pub fn increase_wanted(level: u32) -> (res: Option<u32>)
    ensures
        res == raised_wanted_level(level),
{
    if level == u32::MAX {
        None
    } else {
        let up = level + 1;
        if up < MAX_WANTED_LEVEL {
            Some(up)
        } else {
            Some(MAX_WANTED_LEVEL)
        }
    }
}

/// The next ammunition write of a refill: with `ammo_amount` ammunition types found (`None` when
/// they could not be counted, which refills nothing) and `next` writes made so far, the index of
/// the item to set and the count to set it to, or `None` when the refill is done.
pub fn refill_ammo_write(ammo_amount: Option<u32>, next: u32) -> (res: Option<(usize, u32)>)
    ensures
        res == if next < (match ammo_amount {
            Some(n) => n,
            None => 0u32,
        }) {
            Some((next as usize, REFILL_AMMO_AMOUNT))
        } else {
            None::<(usize, u32)>
        },
{
    let count = match ammo_amount {
        Some(n) => n,
        None => 0,
    };
    if next < count {
        Some((next as usize, REFILL_AMMO_AMOUNT))
    } else {
        None
    }
}

/// Law: from a level of at most five stars, raising and lowering stay within zero to five; raising
/// stops at five and lowering at zero; and for levels below five, lowering undoes raising, while
/// for levels from one to five, raising undoes lowering.
pub proof fn law_wanted_level_steps(level: u32)
    requires
        level <= MAX_WANTED_LEVEL,
    ensures
        raised_wanted_level(level) matches Some(u) && u <= MAX_WANTED_LEVEL && u >= level,
        lowered_wanted_level(level) matches Some(d) && d <= level,
        level == MAX_WANTED_LEVEL ==> raised_wanted_level(level) == Some(MAX_WANTED_LEVEL),
        level == 0 ==> lowered_wanted_level(level) == Some(0u32),
        level < MAX_WANTED_LEVEL ==> lowered_wanted_level(raised_wanted_level(level)->0) == Some(
            level,
        ),
        level >= 1 ==> raised_wanted_level(lowered_wanted_level(level)->0) == Some(level),
{
}

} // verus!
