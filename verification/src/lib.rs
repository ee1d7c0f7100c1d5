//! Core of a credential-menu frontend: a vault session protocol, a provider
//! abstraction that normalizes backend records into displayable items, and a
//! durable item cache.  All subprocess, keyring and file I/O lives outside
//! this library; the functions here take the raw texts those calls produce
//! and are verified against contracts over them.
pub mod bitwarden;
pub mod cache;
pub mod codec;
pub mod item;
pub mod json;
pub mod provider;
pub mod providers;
pub mod rofi;
pub mod text;
