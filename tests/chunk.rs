use arrowdantic::boolean::BooleanArray;
use arrowdantic::chunk::Chunk;
use arrowdantic::dispatch::{ArrayRef, HostValue};
use arrowdantic::error::Error;
use arrowdantic::primitive::{Int32Array, Int64Array};
use arrowdantic::binary::StringArray;

fn column(n: usize) -> ArrayRef {
    ArrayRef::Int64(Int64Array::from_vec((0..n as i64).collect()))
}

#[test]
fn equal_lengths_make_a_chunk() {
    let c = Chunk::new(vec![column(3), column(3), column(3)]).unwrap();
    assert_eq!(c.len(), 3);
    assert_eq!(c.arrays().len(), 3);
}

#[test]
fn unequal_lengths_are_a_length_mismatch() {
    let r = Chunk::new(vec![column(3), column(3), column(2)]);
    assert!(matches!(r, Err(Error::LengthMismatch)));
}

#[test]
fn chunk_of_mixed_types() {
    let c = Chunk::new(vec![
        ArrayRef::Boolean(BooleanArray::from_options(vec![Some(true), None])),
        ArrayRef::Int32(Int32Array::from_vec(vec![1, 2])),
        ArrayRef::Utf8(StringArray::from_vec(vec!["a".to_string(), "b".to_string()])),
    ])
    .unwrap();
    assert_eq!(c.len(), 2);
    let other = Chunk::new(vec![
        ArrayRef::Boolean(BooleanArray::from_options(vec![Some(true), None])),
        ArrayRef::Int32(Int32Array::from_vec(vec![1, 2])),
        ArrayRef::Utf8(StringArray::from_vec(vec!["a".to_string(), "b".to_string()])),
    ])
    .unwrap();
    assert!(c.equals(&other));
    assert_eq!(c.into_arrays().len(), 3);
}

#[test]
fn empty_chunk_has_no_rows() {
    let c = Chunk::new(vec![]).unwrap();
    assert_eq!(c.len(), 0);
}

#[test]
fn chunk_from_host_values() {
    let c = Chunk::from_host(vec![
        HostValue::Ints(vec![Some(1), Some(2), None]),
        HostValue::Texts(vec![Some("a".to_string()), None, Some("c".to_string())]),
    ])
    .unwrap();
    assert_eq!(c.len(), 3);
    let r = Chunk::from_host(vec![HostValue::Ints(vec![Some(1)]), HostValue::Other]);
    assert!(matches!(r, Err(Error::UnsupportedType)));
    let r = Chunk::from_host(vec![HostValue::Ints(vec![Some(1)]), HostValue::Bools(vec![])]);
    assert!(matches!(r, Err(Error::LengthMismatch)));
}
