use vstd::prelude::*;

verus! {

/// Signature of the instruction that loads the vehicle factory instance.
pub const VEHICLE_FACTORY_SIG: &'static str = "48 8B 3D ?? ?? ?? ?? 8B 96 40 03 00 00 48 8B 07 48 8B CF";

/// Offsets that lead from the signature's match to the vehicle factory instance.
pub const VEHICLE_FACTORY_OFFSETS: [usize; 2] = [3, 7];

/// The game's vehicle factory.
pub struct CVehicleFactory {}

/// Address of the vehicle factory in the game's memory.
#[derive(Copy, Clone)]
pub struct CVehicleFactoryPtr(pub usize);

} // verus!
