//! Circuit instances: a shape paired with an optional concrete witness.

use vstd::prelude::*;

use crate::config::CircomConfig;
use crate::field::FieldElement;
use crate::r1cs::{same_shape, R1CS};

verus! {

/// A fully bound circuit: an owned copy of the shape, plus the witness
/// values if a concrete assignment has been computed.
///
/// A `witness` of `None` is a shape-only circuit, useful for setup or
/// verification-key generation without a concrete assignment.
#[derive(Debug, PartialEq, Eq)]
pub struct CircomCircuit {
    pub r1cs: R1CS,
    pub witness: Option<Vec<FieldElement>>,
}

impl CircomCircuit {
    /// The binding invariant that makes an instance provable: a present
    /// witness assigns a value to every variable of the shape.
    pub open spec fn witness_bound(self) -> bool {
        self.witness matches Some(w) ==> w@.len() == self.r1cs.num_variables
    }
}

impl Clone for CircomCircuit {
    /// Copies the instance: the same shape and the same witness values.
    fn clone(&self) -> (r: Self)
        ensures
            same_shape(r.r1cs, self.r1cs),
            r.witness.deep_view() == self.witness.deep_view(),
    {
        let witness = match &self.witness {
            None => None,
            Some(w) => {
                let mut out: Vec<FieldElement> = Vec::new();
                let mut i: usize = 0;
                while i < w.len()
                    invariant
                        i <= w@.len(),
                        out@.len() == i,
                        out.deep_view() =~~= w.deep_view().take(i as int),
                    decreases w@.len() - i,
                {
                    let ghost prev = out;
                    out.push(w[i].clone());
                    i = i + 1;
                    proof {
                        assert forall|j: int| 0 <= j < i implies out.deep_view()[j]
                            == w.deep_view().take(i as int)[j] by {
                            if j < i - 1 {
                                assert(out@[j] == prev@[j]);
                                assert(prev.deep_view()[j] == w.deep_view().take(i - 1)[j]);
                            }
                        }
                        assert(out.deep_view() =~~= w.deep_view().take(i as int));
                    }
                }
                proof {
                    assert(w.deep_view().take(w@.len() as int) =~~= w.deep_view());
                }
                Some(out)
            },
        };
        CircomCircuit { r1cs: self.r1cs.clone(), witness }
    }
}

/// A failure of circuit-instance assembly.
#[derive(Debug, PartialEq, Eq)]
pub enum InstantiateError {
    /// The computed witness does not assign exactly one value per variable;
    /// found only when the configuration's sanity check is enabled.
    WitnessLength { expected: usize, actual: usize },
    /// The witness engine itself failed; the underlying cause is passed
    /// through unmodified.
    EngineCompute { source: String },
}

impl<W> CircomConfig<W> {
    /// Instantiation without inputs: produces a shape-only instance with no
    /// witness. No engine call is involved.
    pub fn instantiate_without_inputs(&self) -> (r: CircomCircuit)
        ensures
            same_shape(r.r1cs, self.r1cs),
            r.witness is None,
    {
        CircomCircuit { r1cs: self.r1cs.clone(), witness: None }
    }

    /// Instantiation with inputs: pairs the witness engine's outcome for
    /// those inputs with a copy of the shape.
    ///
    /// An engine failure is passed through as an engine-compute error. When
    /// the sanity check is enabled, a witness whose length differs from the
    /// declared variable count is rejected with a witness-length error
    /// naming the expected and actual lengths; with the check disabled the
    /// mismatch is deliberately deferred to downstream synthesis.
    pub fn bind_witness(&self, outcome: Result<Vec<FieldElement>, String>) -> (r: Result<
        CircomCircuit,
        InstantiateError,
    >)
        ensures
            outcome matches Err(e) ==> r == Result::<CircomCircuit, InstantiateError>::Err(
                InstantiateError::EngineCompute { source: e },
            ),
            outcome matches Ok(w) ==> (if self.sanity_check && w@.len()
                != self.r1cs.num_variables {
                r == Result::<CircomCircuit, InstantiateError>::Err(
                    InstantiateError::WitnessLength {
                        expected: self.r1cs.num_variables,
                        actual: w@.len() as usize,
                    },
                )
            } else {
                r matches Ok(c) && same_shape(c.r1cs, self.r1cs) && c.witness == Some(w)
            }),
            r matches Ok(c) ==> (self.sanity_check ==> c.witness_bound()),
    {
        match outcome {
            Err(source) => Err(InstantiateError::EngineCompute { source }),
            Ok(witness) => {
                if self.sanity_check && witness.len() != self.r1cs.num_variables {
                    Err(
                        InstantiateError::WitnessLength {
                            expected: self.r1cs.num_variables,
                            actual: witness.len(),
                        },
                    )
                } else {
                    Ok(CircomCircuit { r1cs: self.r1cs.clone(), witness: Some(witness) })
                }
            },
        }
    }
}

} // verus!
