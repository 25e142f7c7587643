use arrowdantic::chunk::Chunk;
use arrowdantic::datatypes::{DataType, Field, Schema};
use arrowdantic::dispatch::ArrayRef;
use arrowdantic::error::Error;
use arrowdantic::primitive::Int64Array;
use arrowdantic::session::{
    check_chunk, column_encodings, parquet_options, Compression, Encoding, ParquetVersion,
    WriterSession,
};
use arrowdantic::stream::{choose_backing, Backing, Capabilities, Direction, StreamSource};

fn schema_i64() -> Schema {
    Schema::new(vec![Field::new("x".to_string(), DataType::Int64, true)])
}

fn chunk_i64() -> Chunk {
    Chunk::new(vec![ArrayRef::Int64(Int64Array::from_vec(vec![1, 2]))]).unwrap()
}

#[test]
fn chunk_must_match_schema() {
    assert!(check_chunk(&schema_i64(), &chunk_i64()).is_ok());
    let ts_schema = Schema::new(vec![Field::new("x".to_string(), DataType::ts_us(None), true)]);
    assert!(matches!(check_chunk(&ts_schema, &chunk_i64()), Err(Error::TypeMismatch)));
    let two = Schema::new(vec![
        Field::new("x".to_string(), DataType::Int64, true),
        Field::new("y".to_string(), DataType::Int64, true),
    ]);
    assert!(matches!(check_chunk(&two, &chunk_i64()), Err(Error::TypeMismatch)));
}

#[test]
fn writer_finalizes_once_and_refuses_later_writes() {
    let mut s = WriterSession::new(schema_i64());
    assert!(s.accept_write(&chunk_i64()).is_ok());
    assert!(!s.is_finished());
    assert!(s.close());
    assert!(s.is_finished());
    assert!(!s.close());
    assert!(matches!(s.accept_write(&chunk_i64()), Err(Error::Finished)));
}

#[test]
fn abandoned_writer_still_finalizes_on_exit() {
    let mut s = WriterSession::new(schema_i64());
    let bad = Chunk::new(vec![]).unwrap();
    assert!(matches!(s.accept_write(&bad), Err(Error::TypeMismatch)));
    assert!(s.close());
}

#[test]
fn parquet_options_are_fixed() {
    let o = parquet_options();
    assert_eq!(o.version, ParquetVersion::V2);
    assert!(o.write_statistics);
    assert_eq!(o.compression, Compression::Uncompressed);
    assert_eq!(column_encodings(&chunk_i64()), vec![Encoding::Plain]);
}

#[test]
fn stream_backing_choice() {
    assert!(matches!(
        choose_backing(StreamSource::Path("f.arrow".to_string()), Direction::Read),
        Ok(Backing::OpenFile(p)) if p == "f.arrow"
    ));
    assert!(matches!(
        choose_backing(StreamSource::Path("f.arrow".to_string()), Direction::Write),
        Ok(Backing::CreateFile(p)) if p == "f.arrow"
    ));
    let write_only = Capabilities { read: false, write: true, seek: true };
    assert!(matches!(choose_backing(StreamSource::Object(write_only), Direction::Read), Err(Error::Capability)));
    assert!(matches!(choose_backing(StreamSource::Object(write_only), Direction::Write), Ok(Backing::HostObject)));
    let no_seek = Capabilities { read: true, write: true, seek: false };
    assert!(matches!(choose_backing(StreamSource::Object(no_seek), Direction::Read), Err(Error::Capability)));
}
