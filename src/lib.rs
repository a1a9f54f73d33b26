pub mod command;
pub mod config;
pub mod files;
pub mod playlist;
pub mod scheduler;
pub mod proto;
pub mod util;
pub mod processor;
pub mod wire;
