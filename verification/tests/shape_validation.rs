use circom_scotia::field::FieldElement;
use circom_scotia::r1cs::{Constraint, ShapeError, R1CS};

fn fe(v: u8) -> FieldElement {
    FieldElement::new(vec![v])
}

fn small_constraint(a: usize, b: usize, c: usize) -> Constraint {
    (vec![(a, fe(1))], vec![(b, fe(1))], vec![(c, fe(1))])
}

#[test]
fn valid_shape_passes_validation() {
    let shape = R1CS {
        num_pub_in: 1,
        num_pub_out: 0,
        num_inputs: 2,
        num_aux: 2,
        num_variables: 4,
        constraints: vec![small_constraint(0, 1, 2)],
    };
    assert_eq!(shape.validate(), Ok(()));
}

#[test]
fn arity_violation_is_reported() {
    let shape = R1CS {
        num_pub_in: 1,
        num_pub_out: 0,
        num_inputs: 2,
        num_aux: 2,
        num_variables: 5,
        constraints: vec![],
    };
    assert_eq!(
        shape.validate(),
        Err(ShapeError::ArityMismatch { num_variables: 5, num_inputs: 2, num_aux: 2 })
    );
}

#[test]
fn input_count_below_constant_wire_is_reported() {
    let shape = R1CS {
        num_pub_in: 2,
        num_pub_out: 1,
        num_inputs: 3,
        num_aux: 1,
        num_variables: 4,
        constraints: vec![],
    };
    assert_eq!(
        shape.validate(),
        Err(ShapeError::InputCountTooSmall { num_inputs: 3, num_pub_in: 2, num_pub_out: 1 })
    );
}

#[test]
fn out_of_range_index_is_caught() {
    let shape = R1CS {
        num_pub_in: 1,
        num_pub_out: 0,
        num_inputs: 2,
        num_aux: 2,
        num_variables: 4,
        constraints: vec![small_constraint(0, 1, 2), small_constraint(1, 9, 3)],
    };
    assert_eq!(
        shape.validate(),
        Err(ShapeError::IndexOutOfRange { constraint: 1, index: 9, num_variables: 4 })
    );
}

#[test]
fn index_equal_to_variable_count_is_out_of_range() {
    let shape = R1CS {
        num_pub_in: 0,
        num_pub_out: 0,
        num_inputs: 1,
        num_aux: 0,
        num_variables: 1,
        constraints: vec![small_constraint(0, 0, 1)],
    };
    assert_eq!(
        shape.validate(),
        Err(ShapeError::IndexOutOfRange { constraint: 0, index: 1, num_variables: 1 })
    );
}

#[test]
fn empty_shape_validates() {
    let shape = R1CS {
        num_pub_in: 0,
        num_pub_out: 0,
        num_inputs: 1,
        num_aux: 0,
        num_variables: 1,
        constraints: vec![],
    };
    assert_eq!(shape.validate(), Ok(()));
}

#[test]
fn cloned_shape_matches_original() {
    let shape = R1CS {
        num_pub_in: 1,
        num_pub_out: 0,
        num_inputs: 2,
        num_aux: 2,
        num_variables: 4,
        constraints: vec![small_constraint(0, 1, 2)],
    };
    let copy = shape.clone();
    assert_eq!(copy, shape);
}
