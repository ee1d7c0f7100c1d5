//! The Keyhub-backed store: a stub that lists nothing yet, kept to the
//! provider contract shape.
use vstd::prelude::*;
use crate::item::{Action, Field, Item};
use crate::provider::{Provider, ProviderError};

verus! {

/// Configuration for a Keyhub store: where it lives and how to call it.
#[derive(Debug, Clone)]
pub struct Config {
    pub path: String,
    pub wrapper: Vec<String>,
}

/// The Keyhub-backed provider.
#[derive(Debug)]
pub struct Keyhub {}

impl Keyhub {
    /// Builds the provider from its configuration.
    pub fn new(_config: Config) -> (r: Keyhub) {
        Keyhub {}
    }
}

impl Provider for Keyhub {
    fn list_items(&mut self) -> Result<Vec<Item>, ProviderError> {
        Ok(Vec::new())
    }

    fn read_field(&mut self, _item: &Item, _field: &Field) -> Result<String, ProviderError> {
        Ok(String::new())
    }

    fn list_actions(&mut self) -> Result<Vec<Action>, ProviderError> {
        Ok(Vec::new())
    }

    fn do_action(&mut self, _action: &Action) {
    }
}

} // verus!
