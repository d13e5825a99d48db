pub mod auth;
pub mod base;
