//! The data-access and caching layer of a small social network: users, follows, posts with
//! replies and favorites, and mail streams, over a relational store and a key-value cache
//! that are held in memory.
//!
//! Every operation is stated as a function on the state of the database, and the code is
//! proved to compute it. The state is kept coherent: whatever the cache holds of a user, a
//! log, a post, the replies to a post or a page of a feed is what the tables hold.

pub mod text;
pub mod json;
pub mod utility;
pub mod db;
pub mod api;
pub mod pages;
pub mod laws;
