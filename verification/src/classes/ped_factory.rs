use vstd::prelude::*;

use crate::classes::ped::CPedPtr;

verus! {

/// Flag bit: the entity is controlled over the network.
pub const IS_CONTROLLED_BY_NETWORK: u8 = 0b00000001;

/// Flag bit: the entity is controlled by a player (rather than by AI).
pub const IS_PLAYER: u8 = 0b00000010;

/// The network bit of a flag byte.
pub open spec fn network_bit(flags: u8) -> bool {
    flags & IS_CONTROLLED_BY_NETWORK != 0
}

/// The player bit of a flag byte.
pub open spec fn player_bit(flags: u8) -> bool {
    flags & IS_PLAYER != 0
}

/// Who controls an entity: the local machine or the network, and a player or AI.
#[derive(Debug)]
pub struct CControlledByInfo {
    flags: u8,
}

impl CControlledByInfo {
    /// The flag byte.
    pub closed spec fn flags(&self) -> u8 {
        self.flags
    }

    /// Control by the network (`is_network`) or locally, by a player (`is_player`) or by AI.
    pub fn new(is_network: bool, is_player: bool) -> (res: Self)
        ensures
            network_bit(res.flags()) == is_network,
            player_bit(res.flags()) == is_player,
            res.flags() & !(IS_CONTROLLED_BY_NETWORK | IS_PLAYER) == 0,
    {
        let mut flags: u8 = 0;
        if is_network {
            flags = flags | IS_CONTROLLED_BY_NETWORK;
        }
        if is_player {
            flags = flags | IS_PLAYER;
        }
        proof {
            lemma_flag_values();
        }
        Self { flags }
    }

    /// Takes over the control flags of `rhs`.
    pub fn set(&mut self, rhs: &CControlledByInfo)
        ensures
            final(self).flags() == rhs.flags(),
    {
        self.flags = rhs.flags;
    }

    /// Controlled over the network.
    pub fn is_controlled_by_network(&self) -> (res: bool)
        ensures
            res == network_bit(self.flags()),
    {
        (self.flags & IS_CONTROLLED_BY_NETWORK) != 0
    }

    /// Controlled locally, by AI.
    pub fn is_controlled_by_local_ai(&self) -> (res: bool)
        ensures
            res == (!network_bit(self.flags()) && !player_bit(self.flags())),
    {
        (self.flags & IS_CONTROLLED_BY_NETWORK) == 0 && (self.flags & IS_PLAYER) == 0
    }

    /// Controlled over the network, by AI.
    pub fn is_controlled_by_network_ai(&self) -> (res: bool)
        ensures
            res == (network_bit(self.flags()) && !player_bit(self.flags())),
    {
        (self.flags & IS_CONTROLLED_BY_NETWORK) != 0 && (self.flags & IS_PLAYER) == 0
    }

    /// Controlled by AI, wherever.
    pub fn is_controlled_by_local_or_network_ai(&self) -> (res: bool)
        ensures
            res == !player_bit(self.flags()),
    {
        (self.flags & IS_PLAYER) == 0
    }

    /// Controlled locally, by a player.
    pub fn is_controlled_by_local_player(&self) -> (res: bool)
        ensures
            res == (!network_bit(self.flags()) && player_bit(self.flags())),
    {
        (self.flags & IS_CONTROLLED_BY_NETWORK) == 0 && (self.flags & IS_PLAYER) != 0
    }

    /// Controlled over the network, by a player.
    pub fn is_controlled_by_network_player(&self) -> (res: bool)
        ensures
            res == (network_bit(self.flags()) && player_bit(self.flags())),
    {
        (self.flags & IS_CONTROLLED_BY_NETWORK) != 0 && (self.flags & IS_PLAYER) != 0
    }

    /// Controlled by a player, wherever.
    pub fn is_controlled_by_local_or_network_player(&self) -> (res: bool)
        ensures
            res == player_bit(self.flags()),
    {
        (self.flags & IS_PLAYER) != 0
    }
}

proof fn lemma_flag_values()
    by (bit_vector)
    ensures
        0u8 | 1u8 == 1u8,
        0u8 | 2u8 == 2u8,
        1u8 | 2u8 == 3u8,
        (0u8 & 1u8) == 0u8,
        (0u8 & 2u8) == 0u8,
        (1u8 & 1u8) != 0u8,
        (1u8 & 2u8) == 0u8,
        (2u8 & 1u8) == 0u8,
        (2u8 & 2u8) != 0u8,
        (3u8 & 1u8) != 0u8,
        (3u8 & 2u8) != 0u8,
        0u8 & !3u8 == 0u8,
        1u8 & !3u8 == 0u8,
        2u8 & !3u8 == 0u8,
        3u8 & !3u8 == 0u8,
{
}

/// Law: `new(is_network, is_player)` is read back exactly by the queries: it is controlled by
/// the network iff `is_network`, and by a player iff `is_player`.
pub proof fn law_new_round_trip(is_network: bool, is_player: bool, info: CControlledByInfo)
    requires
        network_bit(info.flags()) == is_network,
        player_bit(info.flags()) == is_player,
    ensures
        (!network_bit(info.flags()) && !player_bit(info.flags())) == (!is_network && !is_player),
        (network_bit(info.flags()) && !player_bit(info.flags())) == (is_network && !is_player),
        (!network_bit(info.flags()) && player_bit(info.flags())) == (!is_network && is_player),
        (network_bit(info.flags()) && player_bit(info.flags())) == (is_network && is_player),
{
}

/// Law: every entity falls in exactly one of the four classes local AI, network AI, local player
/// and network player; "AI" is the union of the two AI classes, "player" of the two player
/// classes, and the two are complements.
pub proof fn law_control_classes_partition(flags: u8)
    ensures
        ({
            let n = network_bit(flags);
            let p = player_bit(flags);
            let local_ai = !n && !p;
            let network_ai = n && !p;
            let local_player = !n && p;
            let network_player = n && p;
            &&& (if local_ai { 1int } else { 0 }) + (if network_ai { 1int } else { 0 }) + (if local_player {
                1int
            } else {
                0
            }) + (if network_player { 1int } else { 0 }) == 1
            &&& !p == (local_ai || network_ai)
            &&& p == (local_player || network_player)
        }),
{
}

/// Signature of the instruction that loads the pedestrian factory instance.
pub const FACTORY_INSTANCE: &'static str = "48 8B 05 ?? ?? ?? ?? 33 D2 48 8B 40 08";

/// Offsets that lead from the signature's match to the pedestrian factory instance.
pub const FACTORY_INSTANCE_OFFSETS: [usize; 2] = [3, 7];

/// Offset of the local player pointer in the pedestrian factory (after the vtable pointer).
pub const OFF_M_LOCAL_PLAYER: usize = 8;

/// The game's pedestrian factory, which knows the local player.
pub struct CPedFactory;

/// Address of the pedestrian factory in the game's memory.
pub struct CPedFactoryPtr(pub usize);

impl CPedFactoryPtr {
    /// Where the pointer to the local player is stored.
    pub fn local_player_address(&self) -> (res: usize)
        requires
            self.0 + OFF_M_LOCAL_PLAYER <= usize::MAX,
        ensures
            res == self.0 + OFF_M_LOCAL_PLAYER,
    {
        self.0 + OFF_M_LOCAL_PLAYER
    }

    /// The local player for the pointer value read from `local_player_address`: none when null.
    pub fn local_player(raw: usize) -> (res: Option<CPedPtr>)
        ensures
            match res {
                Some(p) => raw != 0 && p.addr() == raw,
                None => raw == 0,
            },
    {
        if raw != 0 {
            Some(CPedPtr::from_raw(raw))
        } else {
            None
        }
    }
}

} // verus!
