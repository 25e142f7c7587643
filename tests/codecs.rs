use std::io::Cursor;

use arrow2::array::{Array, BooleanArray as ArrowBooleanArray, PrimitiveArray as ArrowPrimitiveArray};
use arrow2::bitmap::Bitmap as ArrowBitmap;
use arrow2::chunk::Chunk as ArrowChunk;
use arrow2::datatypes::{DataType as ArrowDataType, Field as ArrowField, Schema as ArrowSchema, TimeUnit as ArrowTimeUnit};
use arrow2::io::{ipc, parquet};

use arrowdantic::bitmap::Validity;
use arrowdantic::boolean::BooleanArray;
use arrowdantic::chunk::Chunk;
use arrowdantic::datatypes::{DataType, Field, Schema, TimeUnit};
use arrowdantic::dispatch::ArrayRef;
use arrowdantic::primitive::Int64Array;
use arrowdantic::session::{check_chunk, parquet_options, WriterSession};

fn arrow_unit(u: TimeUnit) -> ArrowTimeUnit {
    match u {
        TimeUnit::Second => ArrowTimeUnit::Second,
        TimeUnit::Millisecond => ArrowTimeUnit::Millisecond,
        TimeUnit::Microsecond => ArrowTimeUnit::Microsecond,
        TimeUnit::Nanosecond => ArrowTimeUnit::Nanosecond,
    }
}

fn arrow_type(t: &DataType) -> ArrowDataType {
    match t {
        DataType::Int64 => ArrowDataType::Int64,
        DataType::Boolean => ArrowDataType::Boolean,
        DataType::Timestamp(u, tz) => ArrowDataType::Timestamp(arrow_unit(*u), tz.clone()),
        other => panic!("not needed here: {:?}", other),
    }
}

fn library_type(t: &ArrowDataType) -> DataType {
    match t {
        ArrowDataType::Int64 => DataType::Int64,
        ArrowDataType::Boolean => DataType::Boolean,
        ArrowDataType::Timestamp(u, tz) => {
            let unit = match u {
                ArrowTimeUnit::Second => TimeUnit::Second,
                ArrowTimeUnit::Millisecond => TimeUnit::Millisecond,
                ArrowTimeUnit::Microsecond => TimeUnit::Microsecond,
                ArrowTimeUnit::Nanosecond => TimeUnit::Nanosecond,
            };
            DataType::Timestamp(unit, tz.clone())
        }
        other => panic!("not needed here: {:?}", other),
    }
}

fn arrow_validity(v: &Validity, len: usize) -> Option<ArrowBitmap> {
    match v {
        Validity::NoNulls => None,
        Validity::Bitmap(b) => Some(ArrowBitmap::from_u8_vec(b.as_bytes().clone(), len)),
    }
}

fn arrow_schema(s: &Schema) -> ArrowSchema {
    ArrowSchema::from(
        s.fields()
            .iter()
            .map(|f| ArrowField::new(f.name(), arrow_type(f.data_type()), f.nullable()))
            .collect::<Vec<_>>(),
    )
}

fn arrow_chunk(c: &Chunk) -> ArrowChunk<Box<dyn Array>> {
    let arrays = c
        .arrays()
        .iter()
        .map(|a| -> Box<dyn Array> {
            match a {
                ArrayRef::Int64(x) => Box::new(ArrowPrimitiveArray::<i64>::new(
                    arrow_type(x.data_type()),
                    x.values().clone().into(),
                    arrow_validity(x.validity(), x.len()),
                )),
                ArrayRef::Boolean(x) => Box::new(ArrowBooleanArray::new(
                    ArrowDataType::Boolean,
                    ArrowBitmap::from_u8_vec(x.values().as_bytes().clone(), x.len()),
                    arrow_validity(x.validity(), x.len()),
                )),
                _ => panic!("not needed here"),
            }
        })
        .collect();
    ArrowChunk::new(arrays)
}

fn timestamp_chunk() -> (Schema, Chunk) {
    let values = Int64Array::from_options(vec![Some(1_000_000), None, Some(-5)])
        .to_timestamp(TimeUnit::Microsecond, Some("UTC".to_string()));
    let schema = Schema::new(vec![Field::new("ts".to_string(), DataType::ts_us(Some("UTC".to_string())), true)]);
    let chunk = Chunk::new(vec![ArrayRef::Int64(values)]).unwrap();
    (schema, chunk)
}

#[test]
fn timestamp_column_survives_ipc() {
    let (schema, chunk) = timestamp_chunk();
    let mut session = WriterSession::new(schema);
    assert!(session.accept_write(&chunk).is_ok());

    let mut buf = Cursor::new(Vec::new());
    let arrow = arrow_schema(session.schema());
    let mut writer = ipc::write::FileWriter::try_new(&mut buf, &arrow, None, ipc::write::WriteOptions { compression: None }).unwrap();
    writer.write(&arrow_chunk(&chunk), None).unwrap();
    assert!(session.close());
    writer.finish().unwrap();

    buf.set_position(0);
    let metadata = ipc::read::read_file_metadata(&mut buf).unwrap();
    let field_type = library_type(&metadata.schema.fields[0].data_type);
    assert!(field_type.is_ts());
    assert_eq!(field_type.timeunit(), Some("us".to_string()));
    assert_eq!(field_type.tz(), Some("UTC".to_string()));

    let mut reader = ipc::read::FileReader::new(buf, metadata, None, None);
    let back = reader.next().unwrap().unwrap();
    assert!(reader.next().is_none());
    let column = back.arrays()[0].as_any().downcast_ref::<ArrowPrimitiveArray<i64>>().unwrap();
    let values: Vec<Option<i64>> = column.iter().map(|v| v.copied()).collect();
    let read = Int64Array::from_options(values).to_timestamp(TimeUnit::Microsecond, Some("UTC".to_string()));
    match &chunk.arrays()[0] {
        ArrayRef::Int64(written) => assert!(read.equals(written)),
        _ => panic!("wrong variant"),
    }
    assert_eq!(read.to_options(), vec![Some(1_000_000), None, Some(-5)]);
}

#[test]
fn nullable_boolean_column_survives_parquet() {
    let flags = BooleanArray::from_options(vec![Some(true), Some(false), None, Some(true)]);
    let schema = Schema::new(vec![Field::new("b".to_string(), DataType::Boolean, true)]);
    let chunk = Chunk::new(vec![ArrayRef::Boolean(flags)]).unwrap();
    assert!(check_chunk(&schema, &chunk).is_ok());

    let options = parquet_options();
    assert!(options.write_statistics);
    let write_options = parquet::write::WriteOptions {
        write_statistics: options.write_statistics,
        version: parquet::write::Version::V2,
        compression: parquet::write::CompressionOptions::Uncompressed,
    };
    let mut buf = Cursor::new(Vec::new());
    let mut writer = parquet::write::FileWriter::try_new(&mut buf, arrow_schema(&schema), write_options).unwrap();
    let arrow = arrow_chunk(&chunk);
    let encodings = arrow
        .arrays()
        .iter()
        .map(|a| parquet::write::transverse(a.data_type(), |_| parquet::write::Encoding::Plain))
        .collect::<Vec<_>>();
    let fields = writer.parquet_schema().fields().to_vec();
    let group = parquet::write::row_group_iter(arrow, encodings, fields, writer.options());
    writer.write(group).unwrap();
    writer.end(None).unwrap();

    buf.set_position(0);
    let metadata = parquet::read::read_metadata(&mut buf).unwrap();
    let inferred = parquet::read::infer_schema(&metadata).unwrap();
    assert!(library_type(&inferred.fields[0].data_type) == DataType::Boolean);
    let mut reader = parquet::read::FileReader::new(buf, metadata.row_groups, inferred, None, None, None);
    let back = reader.next().unwrap().unwrap();
    let column = back.arrays()[0].as_any().downcast_ref::<ArrowBooleanArray>().unwrap();
    let values: Vec<Option<bool>> = column.iter().collect();
    let read = BooleanArray::from_options(values);
    assert_eq!(read.to_options(), vec![Some(true), Some(false), None, Some(true)]);
}
