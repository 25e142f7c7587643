use arrowdantic::datatypes::{DataType, Field, PhysicalType, Schema, TimeUnit};

#[test]
fn timestamp_reports_unit_and_timezone() {
    let t = DataType::ts_us(Some("UTC".to_string()));
    assert!(t.is_ts());
    assert_eq!(t.timeunit(), Some("us".to_string()));
    assert_eq!(t.tz(), Some("UTC".to_string()));
}

#[test]
fn timestamp_unit_labels() {
    assert_eq!(DataType::ts_s(None).timeunit(), Some("s".to_string()));
    assert_eq!(DataType::ts_ms(None).timeunit(), Some("ms".to_string()));
    assert_eq!(DataType::ts_ns(None).timeunit(), Some("ns".to_string()));
    assert_eq!(DataType::ts_ns(None).tz(), None);
}

#[test]
fn non_timestamp_has_no_unit_or_timezone() {
    let t = DataType::Int64;
    assert!(!t.is_ts());
    assert_eq!(t.timeunit(), None);
    assert_eq!(t.tz(), None);
    assert!(!DataType::time().is_ts());
    assert_eq!(DataType::time().timeunit(), None);
}

#[test]
fn equality_includes_timezone() {
    assert!(DataType::ts_us(Some("UTC".to_string())) == DataType::ts_us(Some("UTC".to_string())));
    assert!(DataType::ts_us(Some("UTC".to_string())) != DataType::ts_us(None));
    assert!(DataType::ts_us(None) != DataType::ts_ms(None));
    assert!(DataType::Int32 != DataType::Date32);
    assert!(DataType::date() == DataType::Date32);
    assert!(DataType::time() == DataType::Time64(TimeUnit::Microsecond));
}

#[test]
fn logical_types_share_physical_types() {
    assert_eq!(DataType::ts_s(None).physical_type(), PhysicalType::Int64);
    assert_eq!(DataType::time().physical_type(), PhysicalType::Int64);
    assert_eq!(DataType::date().physical_type(), PhysicalType::Int32);
    assert_eq!(DataType::LargeUtf8.physical_type(), PhysicalType::LargeUtf8);
    assert_eq!(DataType::Boolean.physical_type(), PhysicalType::Boolean);
}

#[test]
fn field_and_schema_accessors() {
    let f = Field::new("a".to_string(), DataType::Int8, true);
    assert_eq!(f.name(), "a");
    assert!(f.nullable());
    assert!(*f.data_type() == DataType::Int8);
    let g = Field::new("a".to_string(), DataType::Int8, false);
    assert!(f != g);
    let s = Schema::new(vec![f, g]);
    assert_eq!(s.fields().len(), 2);
    assert!(!s.fields()[1].nullable());
}
