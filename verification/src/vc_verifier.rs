pub mod error;
pub mod verify;
