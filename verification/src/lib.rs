pub mod cache;
pub mod config;
pub mod error;
pub mod laws;
pub mod registry;
