//! Core of a desktop credential manager for a game client: a password-derived,
//! authenticated-encryption vault for session tokens, and a byte-exact
//! serializer for the binary cookie container that the game client reads.

pub mod accounts;
pub mod binarycookies;
pub mod bytes;
pub mod crypto;
pub mod environment;
pub mod error;
pub mod game_detection;
pub mod groups;
pub mod hwid;
pub mod launcher;
pub mod process_utils;
pub mod profiles;
pub mod quick_login;
pub mod roblox;
pub mod settings;
pub mod text;
pub mod trusted;
pub mod utils;
pub mod vault;
pub mod watcher;
