//! Verified core of a URL shortener.
pub mod text;
pub mod decimal;
pub mod blocklist;
pub mod outside;
pub mod error;
pub mod slug;
pub mod session;
pub mod link;
pub mod config;
pub mod create;
