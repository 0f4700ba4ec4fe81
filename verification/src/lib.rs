pub mod client;
pub mod config;
pub mod crypto;
pub mod fileops;
pub mod protocol;
pub mod server;
pub mod text;
