pub mod error;
pub mod holder;
pub mod storage;
