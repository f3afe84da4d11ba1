//! Block state definitions: which model a block shows in which state.

pub mod multipart;
pub mod variants;

use vstd::prelude::*;
use crate::fixed::Fixed;
use crate::ident::Identifier;

verus! {

/// A model with the turns about the x and the y axis that it is shown with.
#[derive(Clone, Debug, PartialEq, Eq)]
pub struct AppliedModel {
    pub model: Identifier,
    pub x: Fixed,
    pub y: Fixed,
    pub uvlock: bool,
}

/// A block state definition in one of its two forms.
#[derive(Clone, Debug, PartialEq, Eq)]
pub enum BlockStateDef {
    Variants(variants::Variants),
    Multipart(multipart::Multipart),
}

} // verus!
