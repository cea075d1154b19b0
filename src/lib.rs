pub mod text;
pub mod formats;
pub mod numtext;
pub mod upstream;
pub mod webhook;
pub mod store;
pub mod persist;
pub mod config;
pub mod scheduler;
pub mod protocol;
pub mod media;
