pub mod error;
pub mod issuer;
pub mod schema;
