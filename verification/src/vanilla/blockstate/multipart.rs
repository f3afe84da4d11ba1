//! Multipart definitions: models that are shown where a predicate on the
//! properties holds.

use vstd::prelude::*;
use crate::text::{split, split_spec, text_views};
use crate::vanilla::blockstate::AppliedModel;

verus! {

/// The values that a property may have, written `a|b|c`.
#[derive(Clone, Debug, PartialEq, Eq)]
pub struct VariantValues(pub Vec<String>);

impl View for VariantValues {
    type V = Seq<Seq<char>>;

    open spec fn view(&self) -> Seq<Seq<char>> {
        text_views(self.0@)
    }
}

impl VariantValues {
    /// Reads the values from their text: the pieces between its bars.
    pub fn parse(s: &str) -> (values: VariantValues)
        ensures
            values@ == split_spec(s@, '|'),
    {
        VariantValues(split(s, '|'))
    }
}

/// The values that one property may have.
#[derive(Clone, Debug, PartialEq, Eq)]
pub struct PropertyValues {
    pub name: String,
    pub values: VariantValues,
}

/// For some properties the values that each may have.
#[derive(Clone, Debug, PartialEq, Eq)]
pub struct PredicateData(pub Vec<PropertyValues>);

/// Some predicates of which one has to hold.
#[derive(Clone, Debug, PartialEq, Eq)]
pub struct OrPredicate {
    pub inner: Vec<PredicateData>,
}

/// When a part is shown.
#[derive(Clone, Debug, PartialEq, Eq)]
pub enum Predicate {
    Or(OrPredicate),
    Single(PredicateData),
}

/// A model and the predicate under which it is shown; always, where there
/// is none.
#[derive(Clone, Debug, PartialEq, Eq)]
pub struct ModelPart {
    pub when: Option<Predicate>,
    pub apply: AppliedModel,
}

/// The parts of a block.
#[derive(Clone, Debug, PartialEq, Eq)]
pub struct Multipart(pub Vec<ModelPart>);

} // verus!
