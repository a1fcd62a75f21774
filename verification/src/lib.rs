pub mod assoc;
pub mod cli_adapter;
pub mod config;
pub mod context;
pub mod coordinator;
pub mod hooks;
pub mod json;
pub mod mention;
pub mod paths;
pub mod sessions;
pub mod settings;
pub mod text;
pub mod timestamp;
pub mod types;
