pub mod auth;
pub mod mail;
