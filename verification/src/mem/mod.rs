pub mod error;
pub mod hook;
pub mod mem;
pub mod offsets;
pub mod scan;
pub mod signatures;
