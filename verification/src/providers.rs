//! The backend adapters: one module per secret store.
pub mod bitwarden;
pub mod keyhub;
pub mod password_store;
pub mod terraform;
