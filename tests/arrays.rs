use arrowdantic::binary::{BinaryArray, LargeBinaryArray, LargeStringArray, StringArray};
use arrowdantic::bitmap::{Bitmap, Validity};
use arrowdantic::boolean::{BooleanArray, BooleanIterator};
use arrowdantic::datatypes::{DataType, TimeUnit};
use arrowdantic::error::Error;
use arrowdantic::primitive::{
    Float64Array, Float64Bits, Int16Array, Int32Array, Int64Array, Int8Array, UInt16Array, UInt32Array, UInt64Array,
    UInt8Array,
};

#[test]
fn int_arrays_round_trip_optional_values() {
    let v = vec![Some(1i64), None, Some(-3), Some(i64::MAX)];
    let a = Int64Array::from_options(v.clone());
    assert_eq!(a.to_options(), v);
    assert_eq!(a.len(), 4);
    assert!(a.is_valid(0));
    assert!(!a.is_valid(1));
    assert_eq!(a.get(1), None);
    assert_eq!(a.get(2), Some(-3));
    assert!(matches!(a.validity(), Validity::Bitmap(_)));
}

#[test]
fn every_integer_width_round_trips() {
    let v8 = vec![Some(i8::MIN), None, Some(i8::MAX)];
    assert_eq!(Int8Array::from_options(v8.clone()).to_options(), v8);
    let v16 = vec![None, Some(i16::MIN)];
    assert_eq!(Int16Array::from_options(v16.clone()).to_options(), v16);
    let v32 = vec![Some(7i32), None];
    assert_eq!(Int32Array::from_options(v32.clone()).to_options(), v32);
    let u8s = vec![Some(u8::MAX), None, Some(0)];
    assert_eq!(UInt8Array::from_options(u8s.clone()).to_options(), u8s);
    let u16s = vec![Some(u16::MAX)];
    assert_eq!(UInt16Array::from_options(u16s.clone()).to_options(), u16s);
    let u32s = vec![None, None];
    assert_eq!(UInt32Array::from_options(u32s.clone()).to_options(), u32s);
    let u64s = vec![Some(u64::MAX), None, Some(1)];
    assert_eq!(UInt64Array::from_options(u64s.clone()).to_options(), u64s);
}

#[test]
fn dense_values_have_no_bitmap() {
    let a = Int32Array::from_vec(vec![1, 2, 3]);
    assert!(matches!(a.validity(), Validity::NoNulls));
    assert_eq!(a.to_options(), vec![Some(1), Some(2), Some(3)]);
    assert!(*a.data_type() == DataType::Int32);
}

#[test]
fn empty_array() {
    let a = Int64Array::from_options(vec![]);
    assert_eq!(a.len(), 0);
    assert_eq!(a.to_options(), vec![]);
    let mut it = a.iter();
    assert_eq!(it.next(), None);
}

#[test]
fn iteration_is_restartable_per_call() {
    let a = Int16Array::from_options(vec![Some(4), None]);
    let mut first = a.iter();
    assert_eq!(first.next(), Some(Some(4)));
    assert_eq!(first.next(), Some(None));
    assert_eq!(first.next(), None);
    assert_eq!(first.next(), None);
    let mut second = a.iter();
    assert_eq!(second.next(), Some(Some(4)));
}

#[test]
fn null_payload_does_not_affect_equality() {
    let a = Int64Array::from_options(vec![Some(1), None]);
    let b = Int64Array::from_options(vec![Some(1), None]);
    let c = Int64Array::from_options(vec![Some(1), Some(0)]);
    assert!(a.equals(&b));
    assert!(!a.equals(&c));
    let d = Int64Array::from_vec(vec![1, 0]);
    assert!(c.equals(&d));
}

#[test]
fn reinterpretation_changes_only_the_type() {
    let a = Int64Array::from_options(vec![Some(10), None]);
    let t = a.to_timestamp(TimeUnit::Millisecond, Some("UTC".to_string()));
    assert!(t.data_type().is_ts());
    assert_eq!(t.data_type().timeunit(), Some("ms".to_string()));
    assert_eq!(t.to_options(), vec![Some(10), None]);
    let plain = Int64Array::from_options(vec![Some(10), None]);
    assert!(!plain.equals(&t));

    let time = Int64Array::from_vec(vec![5]).to_time64(TimeUnit::Microsecond);
    assert!(*time.data_type() == DataType::time());
    assert_eq!(time.value(0), 5);

    let date = Int32Array::from_vec(vec![19000]).to_date32();
    assert!(*date.data_type() == DataType::Date32);
    assert_eq!(date.to_options(), vec![Some(19000)]);
}

#[test]
fn boolean_round_trip_and_iterator() {
    let v = vec![Some(true), Some(false), None, Some(true)];
    let a = BooleanArray::from_options(v.clone());
    assert_eq!(a.to_options(), v);
    let mut it = BooleanIterator::new(&a);
    assert_eq!(it.next(), Some(Some(true)));
    assert_eq!(it.next(), Some(Some(false)));
    assert_eq!(it.next(), Some(None));
    assert_eq!(it.next(), Some(Some(true)));
    assert_eq!(it.next(), None);
}

#[test]
fn boolean_bits_are_packed_lsb_first() {
    let flags = vec![true, false, false, false, false, false, false, false, true, true];
    let a = BooleanArray::from_vec(flags.clone());
    assert!(matches!(a.validity(), Validity::NoNulls));
    assert_eq!(a.values().as_bytes(), &vec![0b0000_0001u8, 0b0000_0011u8]);
    let b = Bitmap::from_bools(&flags);
    assert_eq!(b.len(), 10);
    assert!(b.get(9));
    assert!(!b.get(7));
    assert!(a.equals(&BooleanArray::from_options(flags.into_iter().map(Some).collect())));
}

#[test]
fn validity_bitmap_marks_absent_entries() {
    let a = UInt8Array::from_options(vec![None, Some(1), None, None, None, None, None, None, Some(2)]);
    match a.validity() {
        Validity::Bitmap(b) => {
            assert_eq!(b.as_bytes(), &vec![0b0000_0010u8, 0b0000_0001u8]);
        }
        Validity::NoNulls => panic!("expected a bitmap"),
    }
}

#[test]
fn text_round_trip() {
    let v = vec![Some("a".to_string()), None, Some("héllo".to_string()), Some(String::new())];
    let a = StringArray::from_options(&v);
    assert_eq!(a.len(), 4);
    assert_eq!(a.get(0), Some("a".to_string()));
    assert_eq!(a.get(1), None);
    assert_eq!(a.get(2), Some("héllo".to_string()));
    assert_eq!(a.get(3), Some(String::new()));
    assert_eq!(a.value(2), "héllo".as_bytes().to_vec());
    let (offsets, data) = a.as_binary().buffers();
    assert_eq!(offsets, &vec![0i32, 1, 1, 7, 7]);
    assert_eq!(data.len(), 7);
}

#[test]
fn large_text_and_dense_text() {
    let a = LargeStringArray::from_vec(vec!["x".to_string(), "yz".to_string()]);
    assert_eq!(a.get(1), Some("yz".to_string()));
    assert!(matches!(a.as_binary().validity(), Validity::NoNulls));
    let (offsets, _) = a.as_binary().buffers();
    assert_eq!(offsets, &vec![0i64, 1, 3]);
}

#[test]
fn invalid_utf8_is_a_format_error() {
    let bad = vec![Some(vec![b'o', b'k']), Some(vec![0xff, 0xfe])];
    let r = StringArray::from_utf8_options(&bad);
    assert!(matches!(r, Err(Error::Format(_))));
    let good = vec![Some("é".as_bytes().to_vec()), None];
    let a = StringArray::from_utf8_options(&good).unwrap();
    assert_eq!(a.get(0), Some("é".to_string()));
    assert_eq!(a.get(1), None);
}

#[test]
fn binary_round_trip() {
    let v = vec![Some(vec![1u8, 2, 3]), None, Some(vec![])];
    let a = BinaryArray::<i32>::from_options(&v);
    assert_eq!(a.to_options(), v);
    assert!(!a.is_valid(1));
    let b = LargeBinaryArray::from_vec(vec![vec![9u8], vec![8, 7]]);
    assert_eq!(b.get(1), Some(vec![8u8, 7]));
    assert!(a.equals(&BinaryArray::<i32>::from_options(&v)));
    assert!(!a.equals(&BinaryArray::<i32>::from_options(&vec![Some(vec![1u8, 2, 3]), Some(vec![]), Some(vec![])])));
}

#[test]
fn offsets_capacity_check() {
    let small = vec![Some(vec![0u8; 10]), None];
    assert!(arrowdantic::binary::fits::<i32>(&small));
    assert!(arrowdantic::binary::fits::<i64>(&small));
}

#[test]
fn float_arrays_keep_bit_patterns() {
    let nan = f64::NAN.to_bits();
    let v = vec![Some(Float64Bits(nan)), None, Some(Float64Bits((-0.0f64).to_bits()))];
    let a = Float64Array::from_options(v.clone());
    assert_eq!(a.to_options(), v);
    assert!(a.equals(&Float64Array::from_options(v.clone())));
    let positive_zero = vec![Some(Float64Bits(nan)), None, Some(Float64Bits(0.0f64.to_bits()))];
    assert!(!a.equals(&Float64Array::from_options(positive_zero)));
    assert!(*a.data_type() == DataType::Float64);
}
