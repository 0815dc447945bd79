//! The decisions of a Bitwarden client and its agent, without their I/O.

pub mod agent;
pub mod api;
pub mod base64;
pub mod client;
pub mod crypto;
pub mod dirs;
pub mod error;
pub mod login;
pub mod pairs;
pub mod percent;
pub mod pinentry;
pub mod prompt;
pub mod retry;
pub mod ssh_agent;
pub mod ssh_keys;
pub mod sso;
pub mod text;
pub mod vault;
