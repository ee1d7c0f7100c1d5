//! The capability interface every backend adapts to: listing normalized
//! items, reading one declared field, and surfacing backend-specific
//! actions.  `do_action` is total: an action a backend does not support is
//! a no-op, never a crash.
use vstd::prelude::*;
use crate::item::{Action, Field, Item};

verus! {

/// Spec-level model of a [`ProviderError`].
pub enum ProviderErrorV {
    CapabilityViolation,
    Backend(Seq<char>),
}

/// How a provider call fails: the caller asked for a field the item never
/// declared, or the backend itself failed, described as text.
#[derive(Debug)]
pub enum ProviderError {
    CapabilityViolation,
    Backend(String),
}

impl View for ProviderError {
    type V = ProviderErrorV;

    open spec fn view(&self) -> ProviderErrorV {
        match self {
            ProviderError::CapabilityViolation => ProviderErrorV::CapabilityViolation,
            ProviderError::Backend(msg) => ProviderErrorV::Backend(msg@),
        }
    }
}

/// One backend behind the selection menu.
pub trait Provider {
    /// Lists the backend's entries as normalized items.
    fn list_items(&mut self) -> Result<Vec<Item>, ProviderError>;

    /// Reads the plaintext of one declared field of one item.
    fn read_field(&mut self, item: &Item, field: &Field) -> Result<String, ProviderError>;

    /// The backend-specific actions this provider offers.
    fn list_actions(&mut self) -> Result<Vec<Action>, ProviderError>;

    /// Performs one action; an unsupported action is a no-op.
    fn do_action(&mut self, action: &Action);
}

} // verus!
