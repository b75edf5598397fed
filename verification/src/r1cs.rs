//! The R1CS circuit shape: constraints plus variable-count bookkeeping.
//!
//! A constraint is an ordered triple `(A, B, C)` of sparse linear
//! combinations, each a sequence of `(variable index, coefficient)` pairs,
//! encoding the equation `A(x) * B(x) = C(x)` over a variable assignment `x`.
//! The shape aggregates all constraints together with the counts that define
//! the circuit's arity, and offers an explicit re-validation of the
//! invariants that the external loader is expected to have established.

use vstd::prelude::*;

use crate::field::FieldElement;

verus! {

/// One R1CS row: the three sparse linear combinations `(A, B, C)`.
///
/// Indices need not be sorted or deduplicated here; summation over repeated
/// indices is the field-arithmetic collaborator's concern.
pub type Constraint = (
    Vec<(usize, FieldElement)>,
    Vec<(usize, FieldElement)>,
    Vec<(usize, FieldElement)>,
);

/// An R1CS circuit shape.
#[derive(Debug, PartialEq, Eq)]
pub struct R1CS {
    pub num_pub_in: usize,
    pub num_pub_out: usize,
    pub num_inputs: usize,
    pub num_aux: usize,
    pub num_variables: usize,
    pub constraints: Vec<Constraint>,
}

/// A violation found by an explicit sanity check of a shape.
#[derive(Debug, PartialEq, Eq)]
pub enum ShapeError {
    /// `num_variables` is not `num_inputs + num_aux`.
    ArityMismatch { num_variables: usize, num_inputs: usize, num_aux: usize },
    /// `num_inputs` leaves no room for the constant-one wire plus the
    /// declared public inputs and outputs.
    InputCountTooSmall { num_inputs: usize, num_pub_in: usize, num_pub_out: usize },
    /// A constraint references a variable index at or beyond `num_variables`.
    IndexOutOfRange { constraint: usize, index: usize, num_variables: usize },
}

/// Whether every index referenced by one sparse linear combination is below
/// the variable count `n`.
pub open spec fn lc_in_bounds(lc: Seq<(usize, FieldElement)>, n: int) -> bool {
    forall|i: int| 0 <= i < lc.len() ==> (#[trigger] lc[i]).0 < n
}

/// Whether every index referenced by a constraint's three combinations is
/// below the variable count `n`.
pub open spec fn constraint_in_bounds(c: Constraint, n: int) -> bool {
    &&& lc_in_bounds(c.0@, n)
    &&& lc_in_bounds(c.1@, n)
    &&& lc_in_bounds(c.2@, n)
}

impl R1CS {
    /// Total wires are exactly the declared inputs plus the auxiliary wires.
    pub open spec fn arity_ok(self) -> bool {
        self.num_variables == self.num_inputs + self.num_aux
    }

    /// The leading variable is the constant-one wire; the declared public
    /// inputs and outputs occupy the next slots, so `num_inputs` must cover
    /// all of them.
    pub open spec fn input_count_ok(self) -> bool {
        self.num_inputs >= 1 + self.num_pub_in + self.num_pub_out
    }

    /// Every index referenced anywhere in the constraints is in range.
    pub open spec fn indices_ok(self) -> bool {
        forall|i: int|
            0 <= i < self.constraints@.len() ==> constraint_in_bounds(
                #[trigger] self.constraints@[i],
                self.num_variables as int,
            )
    }

    /// The full shape invariant the external loader must establish.
    pub open spec fn well_formed(self) -> bool {
        self.arity_ok() && self.input_count_ok() && self.indices_ok()
    }

    /// Re-validates the shape invariants: the arity identity, the input
    /// count, then every referenced index, constraint by constraint.
    /// Succeeds exactly on well-formed shapes; on failure it reports the
    /// first violation found, naming the offending constraint and index.
    pub fn validate(&self) -> (r: Result<(), ShapeError>)
        ensures
            r is Ok <==> self.well_formed(),
            r matches Err(ShapeError::ArityMismatch { num_variables, num_inputs, num_aux }) ==> {
                &&& !self.arity_ok()
                &&& num_variables == self.num_variables
                &&& num_inputs == self.num_inputs
                &&& num_aux == self.num_aux
            },
            r matches Err(ShapeError::InputCountTooSmall { num_inputs, num_pub_in, num_pub_out })
                ==> {
                &&& self.arity_ok()
                &&& !self.input_count_ok()
                &&& num_inputs == self.num_inputs
                &&& num_pub_in == self.num_pub_in
                &&& num_pub_out == self.num_pub_out
            },
            r matches Err(ShapeError::IndexOutOfRange { constraint, index, num_variables }) ==> {
                &&& self.arity_ok()
                &&& self.input_count_ok()
                &&& num_variables == self.num_variables
                &&& 0 <= constraint < self.constraints@.len()
                &&& !constraint_in_bounds(self.constraints@[constraint as int],
                    self.num_variables as int)
                &&& forall|j: int|
                    0 <= j < constraint ==> constraint_in_bounds(
                        #[trigger] self.constraints@[j],
                        self.num_variables as int,
                    )
                &&& index >= self.num_variables
                &&& constraint_mentions(self.constraints@[constraint as int], index)
            },
    {
        if self.num_variables as u128 != self.num_inputs as u128 + self.num_aux as u128 {
            return Err(ShapeError::ArityMismatch {
                num_variables: self.num_variables,
                num_inputs: self.num_inputs,
                num_aux: self.num_aux,
            });
        }
        if (self.num_inputs as u128) < 1u128 + self.num_pub_in as u128 + self.num_pub_out as u128 {
            return Err(ShapeError::InputCountTooSmall {
                num_inputs: self.num_inputs,
                num_pub_in: self.num_pub_in,
                num_pub_out: self.num_pub_out,
            });
        }
        let mut i: usize = 0;
        while i < self.constraints.len()
            invariant
                i <= self.constraints@.len(),
                self.arity_ok(),
                self.input_count_ok(),
                forall|j: int|
                    0 <= j < i ==> constraint_in_bounds(
                        #[trigger] self.constraints@[j],
                        self.num_variables as int,
                    ),
            decreases self.constraints@.len() - i,
        {
            let c = &self.constraints[i];
            if let Err(index) = check_lc(&c.0, self.num_variables) {
                return Err(ShapeError::IndexOutOfRange {
                    constraint: i,
                    index,
                    num_variables: self.num_variables,
                });
            }
            if let Err(index) = check_lc(&c.1, self.num_variables) {
                return Err(ShapeError::IndexOutOfRange {
                    constraint: i,
                    index,
                    num_variables: self.num_variables,
                });
            }
            if let Err(index) = check_lc(&c.2, self.num_variables) {
                return Err(ShapeError::IndexOutOfRange {
                    constraint: i,
                    index,
                    num_variables: self.num_variables,
                });
            }
            i = i + 1;
        }
        Ok(())
    }
}

/// Whether some pair of the constraint's three combinations carries exactly
/// the index `v`.
pub open spec fn constraint_mentions(c: Constraint, v: usize) -> bool {
    ||| exists|i: int| 0 <= i < c.0@.len() && (#[trigger] c.0@[i]).0 == v
    ||| exists|i: int| 0 <= i < c.1@.len() && (#[trigger] c.1@[i]).0 == v
    ||| exists|i: int| 0 <= i < c.2@.len() && (#[trigger] c.2@[i]).0 == v
}

/// Whether two shapes carry the same counts and the same constraints,
/// compared by value.
pub open spec fn same_shape(a: R1CS, b: R1CS) -> bool {
    &&& a.num_pub_in == b.num_pub_in
    &&& a.num_pub_out == b.num_pub_out
    &&& a.num_inputs == b.num_inputs
    &&& a.num_aux == b.num_aux
    &&& a.num_variables == b.num_variables
    &&& a.constraints.deep_view() == b.constraints.deep_view()
}

/// Two combinations with the same contents reference the same indices, so
/// they are in bounds together.
proof fn lemma_lc_same_bounds(
    l1: Vec<(usize, FieldElement)>,
    l2: Vec<(usize, FieldElement)>,
    n: int,
)
    requires
        l1.deep_view() == l2.deep_view(),
    ensures
        lc_in_bounds(l1@, n) == lc_in_bounds(l2@, n),
{
    assert(l1.deep_view().len() == l1@.len());
    assert(l2.deep_view().len() == l2@.len());
    assert(l1@.len() == l2@.len());
    assert forall|j: int| 0 <= j < l1@.len() implies (#[trigger] l1@[j]).0 == l2@[j].0 by {
        assert(l1.deep_view()[j] == l2.deep_view()[j]);
    }
    if lc_in_bounds(l1@, n) {
        assert forall|j: int| 0 <= j < l2@.len() implies (#[trigger] l2@[j]).0 < n by {
            assert(l1@[j].0 < n);
        }
    }
    if lc_in_bounds(l2@, n) {
        assert forall|j: int| 0 <= j < l1@.len() implies (#[trigger] l1@[j]).0 < n by {
            assert(l2@[j].0 < n);
        }
    }
}

/// Well-formedness depends only on the counts and the constraint contents,
/// so it carries over to any copy with the same shape — in particular to
/// the copies that circuit instances own.
pub proof fn lemma_same_shape_well_formed(a: R1CS, b: R1CS)
    requires
        same_shape(a, b),
    ensures
        a.well_formed() == b.well_formed(),
{
    assert(a.constraints.deep_view().len() == a.constraints@.len());
    assert(b.constraints.deep_view().len() == b.constraints@.len());
    assert(a.constraints@.len() == b.constraints@.len());
    if a.indices_ok() {
        assert forall|i: int| 0 <= i < b.constraints@.len() implies constraint_in_bounds(
            #[trigger] b.constraints@[i],
            b.num_variables as int,
        ) by {
            assert(constraint_in_bounds(a.constraints@[i], a.num_variables as int));
            assert(a.constraints.deep_view()[i] == b.constraints.deep_view()[i]);
            lemma_lc_same_bounds(a.constraints@[i].0, b.constraints@[i].0, a.num_variables as int);
            lemma_lc_same_bounds(a.constraints@[i].1, b.constraints@[i].1, a.num_variables as int);
            lemma_lc_same_bounds(a.constraints@[i].2, b.constraints@[i].2, a.num_variables as int);
        }
    }
    if b.indices_ok() {
        assert forall|i: int| 0 <= i < a.constraints@.len() implies constraint_in_bounds(
            #[trigger] a.constraints@[i],
            a.num_variables as int,
        ) by {
            assert(constraint_in_bounds(b.constraints@[i], b.num_variables as int));
            assert(a.constraints.deep_view()[i] == b.constraints.deep_view()[i]);
            lemma_lc_same_bounds(a.constraints@[i].0, b.constraints@[i].0, a.num_variables as int);
            lemma_lc_same_bounds(a.constraints@[i].1, b.constraints@[i].1, a.num_variables as int);
            lemma_lc_same_bounds(a.constraints@[i].2, b.constraints@[i].2, a.num_variables as int);
        }
    }
}

/// Copies one sparse linear combination.
fn clone_lc(lc: &Vec<(usize, FieldElement)>) -> (r: Vec<(usize, FieldElement)>)
    ensures
        r.deep_view() == lc.deep_view(),
{
    let mut out: Vec<(usize, FieldElement)> = Vec::new();
    let mut i: usize = 0;
    while i < lc.len()
        invariant
            i <= lc@.len(),
            out@.len() == i,
            out.deep_view() =~~= lc.deep_view().take(i as int),
        decreases lc@.len() - i,
    {
        let idx = lc[i].0;
        let coeff = lc[i].1.clone();
        let pair = (idx, coeff);
        proof {
            assert(pair.deep_view() == lc@[i as int].deep_view());
        }
        let ghost prev = out;
        out.push(pair);
        i = i + 1;
        proof {
            assert(out@.len() == i);
            assert forall|j: int| 0 <= j < i implies out.deep_view()[j] == lc.deep_view().take(
                i as int,
            )[j] by {
                if j < i - 1 {
                    assert(out@[j] == prev@[j]);
                    assert(prev.deep_view()[j] == lc.deep_view().take(i - 1)[j]);
                } else {
                    assert(out@[j] == pair);
                }
            }
            assert(out.deep_view() =~~= lc.deep_view().take(i as int));
        }
    }
    proof {
        assert(lc.deep_view().take(lc@.len() as int) =~~= lc.deep_view());
    }
    out
}

/// Copies one constraint's three combinations.
fn clone_constraint(c: &Constraint) -> (r: Constraint)
    ensures
        r.deep_view() == c.deep_view(),
{
    (clone_lc(&c.0), clone_lc(&c.1), clone_lc(&c.2))
}

impl Clone for R1CS {
    /// Copies the shape; the copy carries the same counts and constraints.
    fn clone(&self) -> (r: Self)
        ensures
            same_shape(r, *self),
    {
        let mut constraints: Vec<Constraint> = Vec::new();
        let mut i: usize = 0;
        while i < self.constraints.len()
            invariant
                i <= self.constraints@.len(),
                constraints.deep_view() =~~= self.constraints.deep_view().take(i as int),
            decreases self.constraints@.len() - i,
        {
            let c = clone_constraint(&self.constraints[i]);
            constraints.push(c);
            i = i + 1;
            proof {
                assert(constraints.deep_view() =~~= self.constraints.deep_view().take(i as int));
            }
        }
        proof {
            assert(self.constraints.deep_view().take(self.constraints@.len() as int)
                =~~= self.constraints.deep_view());
        }
        R1CS {
            num_pub_in: self.num_pub_in,
            num_pub_out: self.num_pub_out,
            num_inputs: self.num_inputs,
            num_aux: self.num_aux,
            num_variables: self.num_variables,
            constraints,
        }
    }
}

/// Scans one linear combination for an index at or beyond `n`; reports the
/// first offending index, if any.
fn check_lc(lc: &Vec<(usize, FieldElement)>, n: usize) -> (r: Result<(), usize>)
    ensures
        r is Ok <==> lc_in_bounds(lc@, n as int),
        r matches Err(v) ==> {
            &&& v >= n
            &&& exists|i: int| 0 <= i < lc@.len() && (#[trigger] lc@[i]).0 == v
        },
{
    let mut i: usize = 0;
    while i < lc.len()
        invariant
            i <= lc@.len(),
            forall|j: int| 0 <= j < i ==> (#[trigger] lc@[j]).0 < n,
        decreases lc@.len() - i,
    {
        let idx = lc[i].0;
        if idx >= n {
            return Err(idx);
        }
        i = i + 1;
    }
    Ok(())
}

} // verus!
