//! Named inputs: the interchange unit fed to the witness engine.

use vstd::prelude::*;

use crate::field::FieldElement;

verus! {

/// A named input for a circuit: the input's name and its value as an
/// ordered sequence of field elements.
///
/// Duplicate names across a set of inputs are a caller concern; no
/// cross-field invariant is enforced here.
#[derive(Debug, PartialEq, Eq)]
pub struct CircomInput {
    pub name: String,
    pub value: Vec<FieldElement>,
}

impl CircomInput {
    /// Pairs a name with its value vector.
    pub fn new(name: String, value: Vec<FieldElement>) -> (r: CircomInput)
        ensures
            r.name@ == name@,
            r.value.deep_view() == value.deep_view(),
    {
        CircomInput { name, value }
    }
}

} // verus!
