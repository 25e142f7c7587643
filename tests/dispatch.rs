use arrowdantic::boolean::BooleanArray;
use arrowdantic::datatypes::{DataType, PhysicalType, TimeUnit};
use arrowdantic::dispatch::{from_generic, probe_order_vec, to_generic, ArrayRef, HostValue};
use arrowdantic::error::Error;
use arrowdantic::primitive::{Float32Array, Float32Bits, Int64Array, UInt8Array};
use arrowdantic::binary::StringArray;

fn round_trip(a: ArrayRef) {
    let expected_kind = a.physical_type();
    let expected_type = a.data_type();
    let host = to_generic(a);
    let back = from_generic(host).unwrap();
    assert_eq!(back.physical_type(), expected_kind);
    assert!(back.data_type() == expected_type);
}

#[test]
fn generic_round_trip_is_identity() {
    let ts = Int64Array::from_options(vec![Some(1), None]).to_timestamp(TimeUnit::Microsecond, None);
    let a = ArrayRef::Int64(ts);
    let host = to_generic(a);
    match from_generic(host).unwrap() {
        ArrayRef::Int64(back) => {
            let again = Int64Array::from_options(vec![Some(1), None]).to_timestamp(TimeUnit::Microsecond, None);
            assert!(back.equals(&again));
        }
        _ => panic!("wrong variant"),
    }
    round_trip(ArrayRef::Boolean(BooleanArray::from_vec(vec![true])));
    round_trip(ArrayRef::UInt8(UInt8Array::from_vec(vec![1, 2])));
    round_trip(ArrayRef::Utf8(StringArray::from_vec(vec!["a".to_string()])));
}

#[test]
fn probe_order_is_documented() {
    assert_eq!(
        probe_order_vec(),
        vec![
            PhysicalType::Boolean,
            PhysicalType::Int8,
            PhysicalType::Int16,
            PhysicalType::Int32,
            PhysicalType::Int64,
            PhysicalType::UInt8,
            PhysicalType::UInt16,
            PhysicalType::UInt32,
            PhysicalType::UInt64,
            PhysicalType::Float32,
            PhysicalType::Float64,
            PhysicalType::Utf8,
            PhysicalType::LargeUtf8,
            PhysicalType::Binary,
            PhysicalType::LargeBinary,
        ]
    );
}

#[test]
fn small_integers_resolve_to_the_first_fitting_variant() {
    let a = from_generic(HostValue::Ints(vec![Some(1), None, Some(-2)])).unwrap();
    assert_eq!(a.physical_type(), PhysicalType::Int8);
    assert!(a.data_type() == DataType::Int8);
    match a {
        ArrayRef::Int8(x) => assert_eq!(x.to_options(), vec![Some(1), None, Some(-2)]),
        _ => panic!("wrong variant"),
    }
}

#[test]
fn wider_integers_resolve_to_wider_variants() {
    let a = from_generic(HostValue::Ints(vec![Some(300)])).unwrap();
    assert_eq!(a.physical_type(), PhysicalType::Int16);
    let b = from_generic(HostValue::Ints(vec![Some(1 << 40)])).unwrap();
    assert_eq!(b.physical_type(), PhysicalType::Int64);
    let c = from_generic(HostValue::Ints(vec![Some(u64::MAX as i128)])).unwrap();
    assert_eq!(c.physical_type(), PhysicalType::UInt64);
    match c {
        ArrayRef::UInt64(x) => {
            assert_eq!(x.to_options(), vec![Some(u64::MAX)]);
            assert!(matches!(x.validity(), arrowdantic::bitmap::Validity::NoNulls));
        }
        _ => panic!("wrong variant"),
    }
}

#[test]
fn integers_wider_than_64_bits_are_unsupported() {
    let r = from_generic(HostValue::Ints(vec![Some(1), Some(1i128 << 100)]));
    assert!(matches!(r, Err(Error::UnsupportedType)));
    let r = from_generic(HostValue::Ints(vec![Some(i64::MIN as i128 - 1)]));
    assert!(matches!(r, Err(Error::UnsupportedType)));
}

#[test]
fn other_host_values_are_unsupported() {
    assert!(matches!(from_generic(HostValue::Other), Err(Error::UnsupportedType)));
}

#[test]
fn sequences_of_other_shapes_resolve_to_their_variants() {
    let b = from_generic(HostValue::Bools(vec![Some(true), None])).unwrap();
    assert_eq!(b.physical_type(), PhysicalType::Boolean);
    assert_eq!(b.len(), 2);
    let t = from_generic(HostValue::Texts(vec![Some("x".to_string()), None])).unwrap();
    assert_eq!(t.physical_type(), PhysicalType::Utf8);
    let y = from_generic(HostValue::Bytes(vec![Some(vec![1u8])])).unwrap();
    assert_eq!(y.physical_type(), PhysicalType::Binary);
    match y {
        ArrayRef::Binary(x) => assert_eq!(x.get(0), Some(vec![1u8])),
        _ => panic!("wrong variant"),
    }
}

#[test]
fn empty_sequence_resolves_to_the_first_candidate() {
    let a = from_generic(HostValue::Ints(vec![])).unwrap();
    assert_eq!(a.physical_type(), PhysicalType::Int8);
    assert_eq!(a.len(), 0);
}

#[test]
fn host_floats_resolve_to_float64_without_narrowing() {
    let v = vec![Some(1.5f64.to_bits()), None, Some((-0.25f64).to_bits())];
    let a = from_generic(HostValue::Floats(v)).unwrap();
    assert_eq!(a.physical_type(), PhysicalType::Float64);
    assert!(a.data_type() == DataType::Float64);
    match a {
        ArrayRef::Float64(x) => {
            let back: Vec<Option<f64>> = x.to_options().into_iter().map(|o| o.map(|b| f64::from_bits(b.0))).collect();
            assert_eq!(back, vec![Some(1.5), None, Some(-0.25)]);
        }
        _ => panic!("wrong variant"),
    }
}

#[test]
fn float32_arrays_round_trip_through_the_boundary() {
    let v = vec![Some(Float32Bits(2.5f32.to_bits())), None];
    let a = ArrayRef::Float32(Float32Array::from_options(v.clone()));
    match from_generic(to_generic(a)).unwrap() {
        ArrayRef::Float32(x) => assert_eq!(x.to_options(), v),
        _ => panic!("wrong variant"),
    }
}

#[test]
fn variant_constructor_rejects_other_shapes() {
    let ok = ArrayRef::new(PhysicalType::Int64, HostValue::Ints(vec![Some(5), None])).unwrap();
    assert_eq!(ok.physical_type(), PhysicalType::Int64);
    assert_eq!(ok.len(), 2);
    let too_wide = ArrayRef::new(PhysicalType::Int8, HostValue::Ints(vec![Some(300)]));
    assert!(matches!(too_wide, Err(Error::TypeMismatch)));
    let wrong_shape = ArrayRef::new(PhysicalType::Boolean, HostValue::Texts(vec![Some("x".to_string())]));
    assert!(matches!(wrong_shape, Err(Error::TypeMismatch)));
    let other = ArrayRef::new(PhysicalType::Utf8, HostValue::Other);
    assert!(matches!(other, Err(Error::TypeMismatch)));
    let wrapped = to_generic(ArrayRef::Boolean(BooleanArray::from_vec(vec![true])));
    assert!(matches!(ArrayRef::new(PhysicalType::Int8, wrapped), Err(Error::TypeMismatch)));
    let wrapped = to_generic(ArrayRef::Boolean(BooleanArray::from_vec(vec![true])));
    assert!(ArrayRef::new(PhysicalType::Boolean, wrapped).is_ok());
}
