pub mod credential;
pub mod schema;
pub mod sd_jwt;
