pub mod bytes;
pub mod discovery;
pub mod text;
pub mod identity;
pub mod start_handler;
pub mod discover;
pub mod file_collection;
pub mod encryption;
pub mod wpa;
pub mod arguments;
