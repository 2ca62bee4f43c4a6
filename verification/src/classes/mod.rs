pub mod ammo_repository;
pub mod inventory;
pub mod ped;
pub mod ped_factory;
pub mod physical;
pub mod player_info;
pub mod vehicle;
pub mod vehicle_factory;
pub mod wanted;
