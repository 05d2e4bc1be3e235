pub mod clock;
pub mod ids;
pub mod paths;
pub mod download;
pub mod config;
