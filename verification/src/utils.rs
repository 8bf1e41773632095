pub mod crypto;
pub mod error;
pub mod key_manager;
pub mod sd_jwt;
