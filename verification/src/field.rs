//! Opaque field-element values.
//!
//! Field arithmetic is supplied by an external collaborator; this crate only
//! carries field elements around, so an element is modelled by its canonical
//! byte representation. Nothing here interprets the bytes.

use vstd::prelude::*;

verus! {

/// A field element, held as the byte representation that the external
/// field-arithmetic library produced for it.
#[derive(Debug, PartialEq, Eq)]
pub struct FieldElement {
    pub bytes: Vec<u8>,
}

impl View for FieldElement {
    type V = Seq<u8>;

    open spec fn view(&self) -> Seq<u8> {
        self.bytes@
    }
}

impl DeepView for FieldElement {
    type V = Seq<u8>;

    open spec fn deep_view(&self) -> Seq<u8> {
        self.bytes@
    }
}

impl FieldElement {
    /// Wraps a byte representation as a field element.
    pub fn new(bytes: Vec<u8>) -> (r: FieldElement)
        ensures
            r@ == bytes@,
    {
        FieldElement { bytes }
    }
}

impl Clone for FieldElement {
    fn clone(&self) -> (r: Self)
        ensures
            r@ == self@,
    {
        let mut bytes: Vec<u8> = Vec::new();
        let mut i: usize = 0;
        while i < self.bytes.len()
            invariant
                i <= self.bytes.len(),
                bytes@ == self.bytes@.take(i as int),
            decreases self.bytes.len() - i,
        {
            bytes.push(self.bytes[i]);
            i = i + 1;
            proof {
                assert(bytes@ =~= self.bytes@.take(i as int));
            }
        }
        proof {
            assert(bytes@ =~= self.bytes@);
        }
        FieldElement { bytes }
    }
}

} // verus!
