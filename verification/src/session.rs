//! Inputs of the inference models, and the placeholder model session.

use std::sync::Arc;

use vstd::prelude::*;

verus! {

/// A model session; this build runs no model, so it holds nothing.
pub struct OpaqueSession(());

impl OpaqueSession {
    pub fn placeholder() -> OpaqueSession {
        OpaqueSession(())
    }
}

/// RGB bytes of a card image of the model's size.
#[derive(Debug, Clone)]
pub struct CardClassificationInput {
    pub data: Arc<Vec<u8>>,
    pub width: u32,
    pub height: u32,
}

/// Gray bytes of a digit strip of the model's size.
#[derive(Debug, Clone)]
pub struct DigitInput {
    pub data: Arc<Vec<u8>>,
    pub width: u32,
    pub height: u32,
}

} // verus!
