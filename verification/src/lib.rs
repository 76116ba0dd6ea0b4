use vstd::prelude::*;

pub mod cli;
pub mod config;
pub use config::Config;
pub mod connection;
pub mod database;
pub mod editor;
pub mod frame;
pub mod manager;
pub mod scan;
pub mod sync;
pub use frame::Frame;
pub mod types;
pub use types::Peer;
pub use types::WatchedFolder;
pub mod watcher;
