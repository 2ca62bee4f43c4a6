pub mod player;
pub mod versioning;
