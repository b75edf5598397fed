use circom_scotia::field::FieldElement;
use circom_scotia::input::CircomInput;

fn input(name: &str, values: Vec<Vec<u8>>) -> CircomInput {
    CircomInput::new(
        String::from(name),
        values.into_iter().map(FieldElement::new).collect(),
    )
}

#[test]
fn new_keeps_name_and_value() {
    let x = input("step_in", vec![vec![1, 2], vec![3]]);
    assert_eq!(x.name, "step_in");
    assert_eq!(x.value.len(), 2);
    assert_eq!(x.value[0].bytes, vec![1, 2]);
    assert_eq!(x.value[1].bytes, vec![3]);
}

#[test]
fn round_trip_simple_input() {
    let x = input("step_in", vec![vec![1, 2, 3], vec![], vec![255, 0, 7]]);
    let bytes = x.to_bytes();
    let y = CircomInput::from_bytes(&bytes).unwrap();
    assert_eq!(y, x);
}

#[test]
fn round_trip_empty_name_and_no_values() {
    let x = input("", vec![]);
    let bytes = x.to_bytes();
    let y = CircomInput::from_bytes(&bytes).unwrap();
    assert_eq!(y, x);
}

#[test]
fn round_trip_multibyte_name() {
    let x = input("входной✓", vec![vec![42; 32]]);
    let bytes = x.to_bytes();
    let y = CircomInput::from_bytes(&bytes).unwrap();
    assert_eq!(y.name, "входной✓");
    assert_eq!(y, x);
}

#[test]
fn encoding_layout_is_exact() {
    // name "ab", one element of bytes [9, 8]: each length is eight
    // little-endian bytes.
    let x = input("ab", vec![vec![9, 8]]);
    let bytes = x.to_bytes();
    let expected = vec![
        2, 0, 0, 0, 0, 0, 0, 0, // name byte length
        b'a', b'b', // name bytes
        1, 0, 0, 0, 0, 0, 0, 0, // element count
        2, 0, 0, 0, 0, 0, 0, 0, // element byte length
        9, 8, // element bytes
    ];
    assert_eq!(bytes, expected);
}

#[test]
fn truncated_buffer_is_rejected() {
    let x = input("step_in", vec![vec![1, 2, 3]]);
    let mut bytes = x.to_bytes();
    bytes.pop();
    assert!(CircomInput::from_bytes(&bytes).is_none());
}

#[test]
fn trailing_garbage_is_rejected() {
    let x = input("step_in", vec![vec![1, 2, 3]]);
    let mut bytes = x.to_bytes();
    bytes.push(0);
    assert!(CircomInput::from_bytes(&bytes).is_none());
}

#[test]
fn short_buffer_is_rejected() {
    assert!(CircomInput::from_bytes(&vec![1, 2, 3]).is_none());
}

#[test]
fn invalid_utf8_name_is_rejected() {
    // Claims a one-byte name whose byte is not valid UTF-8.
    let bytes = vec![
        1, 0, 0, 0, 0, 0, 0, 0, // name byte length
        0xFF, // invalid UTF-8
        0, 0, 0, 0, 0, 0, 0, 0, // element count
    ];
    assert!(CircomInput::from_bytes(&bytes).is_none());
}

#[test]
fn overlong_name_length_is_rejected() {
    let bytes = vec![
        200, 0, 0, 0, 0, 0, 0, 0, // name byte length far beyond the buffer
        b'a',
    ];
    assert!(CircomInput::from_bytes(&bytes).is_none());
}
