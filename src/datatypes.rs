use vstd::prelude::*;

verus! {

/// Resolution of a time value carried by an integer buffer.
#[derive(Clone, Copy, Debug, PartialEq, Eq, Structural)]
pub enum TimeUnit {
    Second,
    Millisecond,
    Microsecond,
    Nanosecond,
}

/// The short label of a time unit ("s", "ms", "us", "ns").
pub open spec fn unit_label(u: TimeUnit) -> Seq<char> {
    match u {
        TimeUnit::Second => seq!['s'],
        TimeUnit::Millisecond => seq!['m', 's'],
        TimeUnit::Microsecond => seq!['u', 's'],
        TimeUnit::Nanosecond => seq!['n', 's'],
    }
}

/// The physical representation that backs a logical type.
#[derive(Clone, Copy, Debug, PartialEq, Eq, Structural)]
pub enum PhysicalType {
    Boolean,
    Int8,
    Int16,
    Int32,
    Int64,
    UInt8,
    UInt16,
    UInt32,
    UInt64,
    Float32,
    Float64,
    Utf8,
    LargeUtf8,
    Binary,
    LargeBinary,
}

/// Logical type of a column.
#[derive(Clone, Debug)]
pub enum DataType {
    Boolean,
    Int8,
    Int16,
    Int32,
    Int64,
    UInt8,
    UInt16,
    UInt32,
    UInt64,
    Float32,
    Float64,
    Utf8,
    LargeUtf8,
    Binary,
    LargeBinary,
    Timestamp(TimeUnit, Option<String>),
    Date32,
    Time64(TimeUnit),
}

/// Mathematical value of a `DataType`: the timezone is its sequence of characters.
pub enum TypeTag {
    Boolean,
    Int8,
    Int16,
    Int32,
    Int64,
    UInt8,
    UInt16,
    UInt32,
    UInt64,
    Float32,
    Float64,
    Utf8,
    LargeUtf8,
    Binary,
    LargeBinary,
    Timestamp(TimeUnit, Option<Seq<char>>),
    Date32,
    Time64(TimeUnit),
}

pub open spec fn opt_text(o: Option<String>) -> Option<Seq<char>> {
    match o {
        Some(s) => Some(s@),
        None => None,
    }
}

/// The physical type behind a logical type: timestamps and times are 64-bit
/// integers, dates are 32-bit integers.
pub open spec fn physical_of(t: TypeTag) -> PhysicalType {
    match t {
        TypeTag::Boolean => PhysicalType::Boolean,
        TypeTag::Int8 => PhysicalType::Int8,
        TypeTag::Int16 => PhysicalType::Int16,
        TypeTag::Int32 => PhysicalType::Int32,
        TypeTag::Int64 => PhysicalType::Int64,
        TypeTag::UInt8 => PhysicalType::UInt8,
        TypeTag::UInt16 => PhysicalType::UInt16,
        TypeTag::UInt32 => PhysicalType::UInt32,
        TypeTag::UInt64 => PhysicalType::UInt64,
        TypeTag::Float32 => PhysicalType::Float32,
        TypeTag::Float64 => PhysicalType::Float64,
        TypeTag::Utf8 => PhysicalType::Utf8,
        TypeTag::LargeUtf8 => PhysicalType::LargeUtf8,
        TypeTag::Binary => PhysicalType::Binary,
        TypeTag::LargeBinary => PhysicalType::LargeBinary,
        TypeTag::Timestamp(_, _) => PhysicalType::Int64,
        TypeTag::Date32 => PhysicalType::Int32,
        TypeTag::Time64(_) => PhysicalType::Int64,
    }
}

impl View for DataType {
    type V = TypeTag;

    open spec fn view(&self) -> TypeTag {
        match self {
            DataType::Boolean => TypeTag::Boolean,
            DataType::Int8 => TypeTag::Int8,
            DataType::Int16 => TypeTag::Int16,
            DataType::Int32 => TypeTag::Int32,
            DataType::Int64 => TypeTag::Int64,
            DataType::UInt8 => TypeTag::UInt8,
            DataType::UInt16 => TypeTag::UInt16,
            DataType::UInt32 => TypeTag::UInt32,
            DataType::UInt64 => TypeTag::UInt64,
            DataType::Float32 => TypeTag::Float32,
            DataType::Float64 => TypeTag::Float64,
            DataType::Utf8 => TypeTag::Utf8,
            DataType::LargeUtf8 => TypeTag::LargeUtf8,
            DataType::Binary => TypeTag::Binary,
            DataType::LargeBinary => TypeTag::LargeBinary,
            DataType::Timestamp(u, tz) => TypeTag::Timestamp(*u, opt_text(*tz)),
            DataType::Date32 => TypeTag::Date32,
            DataType::Time64(u) => TypeTag::Time64(*u),
        }
    }
}

fn same_text(a: &Option<String>, b: &Option<String>) -> (r: bool)
    ensures
        r == (opt_text(*a) == opt_text(*b)),
{
    match (a, b) {
        (Some(x), Some(y)) => *x == *y,
        (None, None) => true,
        _ => false,
    }
}

fn copy_text(a: &Option<String>) -> (r: Option<String>)
    ensures
        opt_text(r) == opt_text(*a),
{
    match a {
        Some(x) => Some(x.clone()),
        None => None,
    }
}

impl PartialEq for DataType {
    fn eq(&self, other: &DataType) -> (r: bool) {
        match (self, other) {
            (DataType::Timestamp(u1, z1), DataType::Timestamp(u2, z2)) => {
                *u1 == *u2 && same_text(z1, z2)
            },
            (DataType::Time64(u1), DataType::Time64(u2)) => *u1 == *u2,
            (DataType::Boolean, DataType::Boolean) => true,
            (DataType::Int8, DataType::Int8) => true,
            (DataType::Int16, DataType::Int16) => true,
            (DataType::Int32, DataType::Int32) => true,
            (DataType::Int64, DataType::Int64) => true,
            (DataType::UInt8, DataType::UInt8) => true,
            (DataType::UInt16, DataType::UInt16) => true,
            (DataType::UInt32, DataType::UInt32) => true,
            (DataType::UInt64, DataType::UInt64) => true,
            (DataType::Float32, DataType::Float32) => true,
            (DataType::Float64, DataType::Float64) => true,
            (DataType::Utf8, DataType::Utf8) => true,
            (DataType::LargeUtf8, DataType::LargeUtf8) => true,
            (DataType::Binary, DataType::Binary) => true,
            (DataType::LargeBinary, DataType::LargeBinary) => true,
            (DataType::Date32, DataType::Date32) => true,
            _ => false,
        }
    }
}

impl vstd::std_specs::cmp::PartialEqSpecImpl for DataType {
    open spec fn obeys_eq_spec() -> bool {
        true
    }

    open spec fn eq_spec(&self, other: &DataType) -> bool {
        self@ == other@
    }
}

impl DataType {
    /// A copy of this type with the same value.
    pub fn duplicate(&self) -> (r: DataType)
        ensures
            r@ == self@,
    {
        match self {
            DataType::Timestamp(u, tz) => DataType::Timestamp(*u, copy_text(tz)),
            DataType::Time64(u) => DataType::Time64(*u),
            DataType::Boolean => DataType::Boolean,
            DataType::Int8 => DataType::Int8,
            DataType::Int16 => DataType::Int16,
            DataType::Int32 => DataType::Int32,
            DataType::Int64 => DataType::Int64,
            DataType::UInt8 => DataType::UInt8,
            DataType::UInt16 => DataType::UInt16,
            DataType::UInt32 => DataType::UInt32,
            DataType::UInt64 => DataType::UInt64,
            DataType::Float32 => DataType::Float32,
            DataType::Float64 => DataType::Float64,
            DataType::Utf8 => DataType::Utf8,
            DataType::LargeUtf8 => DataType::LargeUtf8,
            DataType::Binary => DataType::Binary,
            DataType::LargeBinary => DataType::LargeBinary,
            DataType::Date32 => DataType::Date32,
        }
    }

    /// Seconds-resolution timestamp with an optional timezone.
    pub fn ts_s(tz: Option<String>) -> (r: DataType)
        ensures
            r@ == TypeTag::Timestamp(TimeUnit::Second, opt_text(tz)),
    {
        DataType::Timestamp(TimeUnit::Second, tz)
    }

    /// Milliseconds-resolution timestamp with an optional timezone.
    pub fn ts_ms(tz: Option<String>) -> (r: DataType)
        ensures
            r@ == TypeTag::Timestamp(TimeUnit::Millisecond, opt_text(tz)),
    {
        DataType::Timestamp(TimeUnit::Millisecond, tz)
    }

    /// Microseconds-resolution timestamp with an optional timezone.
    pub fn ts_us(tz: Option<String>) -> (r: DataType)
        ensures
            r@ == TypeTag::Timestamp(TimeUnit::Microsecond, opt_text(tz)),
    {
        DataType::Timestamp(TimeUnit::Microsecond, tz)
    }

    /// Nanoseconds-resolution timestamp with an optional timezone.
    pub fn ts_ns(tz: Option<String>) -> (r: DataType)
        ensures
            r@ == TypeTag::Timestamp(TimeUnit::Nanosecond, opt_text(tz)),
    {
        DataType::Timestamp(TimeUnit::Nanosecond, tz)
    }

    /// Days since the epoch, over a 32-bit integer buffer.
    pub fn date() -> (r: DataType)
        ensures
            r@ == TypeTag::Date32,
    {
        DataType::Date32
    }

    /// Microseconds since midnight, over a 64-bit integer buffer.
    pub fn time() -> (r: DataType)
        ensures
            r@ == TypeTag::Time64(TimeUnit::Microsecond),
    {
        DataType::Time64(TimeUnit::Microsecond)
    }

    /// Whether this is a timestamp type.
    pub fn is_ts(&self) -> (r: bool)
        ensures
            r == (self@ is Timestamp),
    {
        match self {
            DataType::Timestamp(_, _) => true,
            _ => false,
        }
    }

    /// The timezone of a timestamp type; `None` for any other type.
    pub fn tz(&self) -> (r: Option<String>)
        ensures
            opt_text(r) == (match self@ {
                TypeTag::Timestamp(_, tz) => tz,
                _ => None,
            }),
    {
        match self {
            DataType::Timestamp(_, tz) => copy_text(tz),
            _ => None,
        }
    }

    /// The unit label of a timestamp type; `None` for any other type.
    pub fn timeunit(&self) -> (r: Option<String>)
        ensures
            opt_text(r) == (match self@ {
                TypeTag::Timestamp(u, _) => Some(unit_label(u)),
                _ => None,
            }),
    {
        proof {
            reveal_strlit("s");
            reveal_strlit("ms");
            reveal_strlit("us");
            reveal_strlit("ns");
        }
        match self {
            DataType::Timestamp(u, _) => match u {
                TimeUnit::Second => Some("s".to_string()),
                TimeUnit::Millisecond => Some("ms".to_string()),
                TimeUnit::Microsecond => Some("us".to_string()),
                TimeUnit::Nanosecond => Some("ns".to_string()),
            },
            _ => None,
        }
    }

    /// The physical representation of this type.
    pub fn physical_type(&self) -> (r: PhysicalType)
        ensures
            r == physical_of(self@),
    {
        match self {
            DataType::Boolean => PhysicalType::Boolean,
            DataType::Int8 => PhysicalType::Int8,
            DataType::Int16 => PhysicalType::Int16,
            DataType::Int32 => PhysicalType::Int32,
            DataType::Int64 => PhysicalType::Int64,
            DataType::UInt8 => PhysicalType::UInt8,
            DataType::UInt16 => PhysicalType::UInt16,
            DataType::UInt32 => PhysicalType::UInt32,
            DataType::UInt64 => PhysicalType::UInt64,
            DataType::Float32 => PhysicalType::Float32,
            DataType::Float64 => PhysicalType::Float64,
            DataType::Utf8 => PhysicalType::Utf8,
            DataType::LargeUtf8 => PhysicalType::LargeUtf8,
            DataType::Binary => PhysicalType::Binary,
            DataType::LargeBinary => PhysicalType::LargeBinary,
            DataType::Timestamp(_, _) => PhysicalType::Int64,
            DataType::Date32 => PhysicalType::Int32,
            DataType::Time64(_) => PhysicalType::Int64,
        }
    }
}

/// A named, typed column description.
#[derive(Clone, Debug)]
pub struct Field {
    pub name: String,
    pub data_type: DataType,
    pub is_nullable: bool,
}

/// Mathematical value of a `Field`.
pub struct FieldModel {
    pub name: Seq<char>,
    pub data_type: TypeTag,
    pub nullable: bool,
}

impl View for Field {
    type V = FieldModel;

    open spec fn view(&self) -> FieldModel {
        FieldModel { name: self.name@, data_type: self.data_type@, nullable: self.is_nullable }
    }
}

impl PartialEq for Field {
    fn eq(&self, other: &Field) -> (r: bool) {
        self.name == other.name && self.data_type == other.data_type
            && self.is_nullable == other.is_nullable
    }
}

impl vstd::std_specs::cmp::PartialEqSpecImpl for Field {
    open spec fn obeys_eq_spec() -> bool {
        true
    }

    open spec fn eq_spec(&self, other: &Field) -> bool {
        self@ == other@
    }
}

impl Field {
    pub fn new(name: String, data_type: DataType, is_nullable: bool) -> (r: Field)
        ensures
            r@ == (FieldModel { name: name@, data_type: data_type@, nullable: is_nullable }),
    {
        Field { name, data_type, is_nullable }
    }

    pub fn name(&self) -> (r: &str)
        ensures
            r@ == self.name@,
    {
        self.name.as_str()
    }

    pub fn nullable(&self) -> (r: bool)
        ensures
            r == self.is_nullable,
    {
        self.is_nullable
    }

    pub fn data_type(&self) -> (r: &DataType)
        ensures
            r@ == self.data_type@,
    {
        &self.data_type
    }
}

/// An ordered sequence of fields; names need not be unique.
#[derive(Clone, Debug)]
pub struct Schema {
    pub fields: Vec<Field>,
}

impl View for Schema {
    type V = Seq<FieldModel>;

    open spec fn view(&self) -> Seq<FieldModel> {
        self.fields@.map_values(|f: Field| f@)
    }
}

impl Schema {
    pub fn new(fields: Vec<Field>) -> (r: Schema)
        ensures
            r@ == fields@.map_values(|f: Field| f@),
    {
        Schema { fields }
    }

    pub fn fields(&self) -> (r: &Vec<Field>)
        ensures
            r@.map_values(|f: Field| f@) == self@,
    {
        &self.fields
    }
}

} // verus!
