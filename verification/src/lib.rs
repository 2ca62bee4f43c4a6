//! Verified core of an external game-state toolkit: memory signature parsing and
//! scanning, class field layouts, feature arithmetic and the in-game menu model.
pub mod mem;
pub mod classes;
pub mod features;
pub mod gui;
