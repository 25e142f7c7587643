use vstd::prelude::*;
use vstd::utf8::encode_utf8;

use crate::binary::{fits_offsets, opt_bytes, opt_utf8, BinaryArray, Offset, Utf8Array};
use crate::boolean::BooleanArray;
use crate::datatypes::{DataType, PhysicalType, TypeTag};
use crate::error::Error;
use crate::primitive::{Float32Bits, Float64Bits, NativeType, PrimitiveArray, natural_tag};

verus! {

/// The value of one present slot, whatever the array's physical type.
pub enum Scalar {
    Bool(bool),
    /// The value of an integer slot, or the bit pattern of a floating-point one.
    Int(int),
    Bytes(Seq<u8>),
}

/// An array of any supported physical type, tagged with that type.
#[derive(Debug)]
pub enum ArrayRef {
    Boolean(BooleanArray),
    Int8(PrimitiveArray<i8>),
    Int16(PrimitiveArray<i16>),
    Int32(PrimitiveArray<i32>),
    Int64(PrimitiveArray<i64>),
    UInt8(PrimitiveArray<u8>),
    UInt16(PrimitiveArray<u16>),
    UInt32(PrimitiveArray<u32>),
    UInt64(PrimitiveArray<u64>),
    Float32(PrimitiveArray<Float32Bits>),
    Float64(PrimitiveArray<Float64Bits>),
    Utf8(Utf8Array<i32>),
    LargeUtf8(Utf8Array<i64>),
    Binary(BinaryArray<i32>),
    LargeBinary(BinaryArray<i64>),
}

pub open spec fn native_cells<T: NativeType>(s: Seq<Option<T>>) -> Seq<Option<Scalar>> {
    s.map_values(
        |o: Option<T>|
            match o {
                Some(x) => Some(Scalar::Int(x.spec_int())),
                None => None,
            },
    )
}

pub open spec fn bool_cells(s: Seq<Option<bool>>) -> Seq<Option<Scalar>> {
    s.map_values(
        |o: Option<bool>|
            match o {
                Some(b) => Some(Scalar::Bool(b)),
                None => None,
            },
    )
}

pub open spec fn byte_cells(s: Seq<Option<Seq<u8>>>) -> Seq<Option<Scalar>> {
    s.map_values(
        |o: Option<Seq<u8>>|
            match o {
                Some(b) => Some(Scalar::Bytes(b)),
                None => None,
            },
    )
}

impl ArrayRef {
    pub open spec fn wf(&self) -> bool {
        match self {
            ArrayRef::Boolean(a) => a.wf(),
            ArrayRef::Int8(a) => a.wf(),
            ArrayRef::Int16(a) => a.wf(),
            ArrayRef::Int32(a) => a.wf(),
            ArrayRef::Int64(a) => a.wf(),
            ArrayRef::UInt8(a) => a.wf(),
            ArrayRef::UInt16(a) => a.wf(),
            ArrayRef::UInt32(a) => a.wf(),
            ArrayRef::UInt64(a) => a.wf(),
            ArrayRef::Float32(a) => a.wf(),
            ArrayRef::Float64(a) => a.wf(),
            ArrayRef::Utf8(a) => a.wf(),
            ArrayRef::LargeUtf8(a) => a.wf(),
            ArrayRef::Binary(a) => a.wf(),
            ArrayRef::LargeBinary(a) => a.wf(),
        }
    }

    /// The physical type: which variant this is.
    pub open spec fn physical(&self) -> PhysicalType {
        match self {
            ArrayRef::Boolean(_) => PhysicalType::Boolean,
            ArrayRef::Int8(_) => PhysicalType::Int8,
            ArrayRef::Int16(_) => PhysicalType::Int16,
            ArrayRef::Int32(_) => PhysicalType::Int32,
            ArrayRef::Int64(_) => PhysicalType::Int64,
            ArrayRef::UInt8(_) => PhysicalType::UInt8,
            ArrayRef::UInt16(_) => PhysicalType::UInt16,
            ArrayRef::UInt32(_) => PhysicalType::UInt32,
            ArrayRef::UInt64(_) => PhysicalType::UInt64,
            ArrayRef::Float32(_) => PhysicalType::Float32,
            ArrayRef::Float64(_) => PhysicalType::Float64,
            ArrayRef::Utf8(_) => PhysicalType::Utf8,
            ArrayRef::LargeUtf8(_) => PhysicalType::LargeUtf8,
            ArrayRef::Binary(_) => PhysicalType::Binary,
            ArrayRef::LargeBinary(_) => PhysicalType::LargeBinary,
        }
    }

    /// The logical type.
    pub open spec fn dtype(&self) -> TypeTag {
        match self {
            ArrayRef::Int8(a) => a.dtype(),
            ArrayRef::Int16(a) => a.dtype(),
            ArrayRef::Int32(a) => a.dtype(),
            ArrayRef::Int64(a) => a.dtype(),
            ArrayRef::UInt8(a) => a.dtype(),
            ArrayRef::UInt16(a) => a.dtype(),
            ArrayRef::UInt32(a) => a.dtype(),
            ArrayRef::UInt64(a) => a.dtype(),
            ArrayRef::Float32(a) => a.dtype(),
            ArrayRef::Float64(a) => a.dtype(),
            _ => natural_tag(self.physical()),
        }
    }

    /// The slots, each present value as a scalar.
    pub open spec fn cells(&self) -> Seq<Option<Scalar>> {
        match self {
            ArrayRef::Boolean(a) => bool_cells(a@),
            ArrayRef::Int8(a) => native_cells(a@),
            ArrayRef::Int16(a) => native_cells(a@),
            ArrayRef::Int32(a) => native_cells(a@),
            ArrayRef::Int64(a) => native_cells(a@),
            ArrayRef::UInt8(a) => native_cells(a@),
            ArrayRef::UInt16(a) => native_cells(a@),
            ArrayRef::UInt32(a) => native_cells(a@),
            ArrayRef::UInt64(a) => native_cells(a@),
            ArrayRef::Float32(a) => native_cells(a@),
            ArrayRef::Float64(a) => native_cells(a@),
            ArrayRef::Utf8(a) => byte_cells(a@),
            ArrayRef::LargeUtf8(a) => byte_cells(a@),
            ArrayRef::Binary(a) => byte_cells(a@),
            ArrayRef::LargeBinary(a) => byte_cells(a@),
        }
    }

    /// Whether the array carries a validity bitmap.
    pub open spec fn has_bitmap(&self) -> bool {
        match self {
            ArrayRef::Boolean(a) => a.has_bitmap(),
            ArrayRef::Int8(a) => a.has_bitmap(),
            ArrayRef::Int16(a) => a.has_bitmap(),
            ArrayRef::Int32(a) => a.has_bitmap(),
            ArrayRef::Int64(a) => a.has_bitmap(),
            ArrayRef::UInt8(a) => a.has_bitmap(),
            ArrayRef::UInt16(a) => a.has_bitmap(),
            ArrayRef::UInt32(a) => a.has_bitmap(),
            ArrayRef::UInt64(a) => a.has_bitmap(),
            ArrayRef::Float32(a) => a.has_bitmap(),
            ArrayRef::Float64(a) => a.has_bitmap(),
            ArrayRef::Utf8(a) => a.has_bitmap(),
            ArrayRef::LargeUtf8(a) => a.has_bitmap(),
            ArrayRef::Binary(a) => a.has_bitmap(),
            ArrayRef::LargeBinary(a) => a.has_bitmap(),
        }
    }

    /// Number of slots.
    pub fn len(&self) -> (r: usize)
        requires
            self.wf(),
        ensures
            r == self.cells().len(),
    {
        match self {
            ArrayRef::Boolean(a) => a.len(),
            ArrayRef::Int8(a) => a.len(),
            ArrayRef::Int16(a) => a.len(),
            ArrayRef::Int32(a) => a.len(),
            ArrayRef::Int64(a) => a.len(),
            ArrayRef::UInt8(a) => a.len(),
            ArrayRef::UInt16(a) => a.len(),
            ArrayRef::UInt32(a) => a.len(),
            ArrayRef::UInt64(a) => a.len(),
            ArrayRef::Float32(a) => a.len(),
            ArrayRef::Float64(a) => a.len(),
            ArrayRef::Utf8(a) => a.len(),
            ArrayRef::LargeUtf8(a) => a.len(),
            ArrayRef::Binary(a) => a.len(),
            ArrayRef::LargeBinary(a) => a.len(),
        }
    }

    /// The physical type.
    pub fn physical_type(&self) -> (r: PhysicalType)
        ensures
            r == self.physical(),
    {
        match self {
            ArrayRef::Boolean(_) => PhysicalType::Boolean,
            ArrayRef::Int8(_) => PhysicalType::Int8,
            ArrayRef::Int16(_) => PhysicalType::Int16,
            ArrayRef::Int32(_) => PhysicalType::Int32,
            ArrayRef::Int64(_) => PhysicalType::Int64,
            ArrayRef::UInt8(_) => PhysicalType::UInt8,
            ArrayRef::UInt16(_) => PhysicalType::UInt16,
            ArrayRef::UInt32(_) => PhysicalType::UInt32,
            ArrayRef::UInt64(_) => PhysicalType::UInt64,
            ArrayRef::Float32(_) => PhysicalType::Float32,
            ArrayRef::Float64(_) => PhysicalType::Float64,
            ArrayRef::Utf8(_) => PhysicalType::Utf8,
            ArrayRef::LargeUtf8(_) => PhysicalType::LargeUtf8,
            ArrayRef::Binary(_) => PhysicalType::Binary,
            ArrayRef::LargeBinary(_) => PhysicalType::LargeBinary,
        }
    }

    /// The logical type.
    pub fn data_type(&self) -> (r: DataType)
        ensures
            r@ == self.dtype(),
    {
        match self {
            ArrayRef::Boolean(_) => DataType::Boolean,
            ArrayRef::Int8(a) => a.data_type().duplicate(),
            ArrayRef::Int16(a) => a.data_type().duplicate(),
            ArrayRef::Int32(a) => a.data_type().duplicate(),
            ArrayRef::Int64(a) => a.data_type().duplicate(),
            ArrayRef::UInt8(a) => a.data_type().duplicate(),
            ArrayRef::UInt16(a) => a.data_type().duplicate(),
            ArrayRef::UInt32(a) => a.data_type().duplicate(),
            ArrayRef::UInt64(a) => a.data_type().duplicate(),
            ArrayRef::Float32(a) => a.data_type().duplicate(),
            ArrayRef::Float64(a) => a.data_type().duplicate(),
            ArrayRef::Utf8(_) => DataType::Utf8,
            ArrayRef::LargeUtf8(_) => DataType::LargeUtf8,
            ArrayRef::Binary(_) => DataType::Binary,
            ArrayRef::LargeBinary(_) => DataType::LargeBinary,
        }
    }

    /// Same variant, same logical type and same slots.
    pub fn equals(&self, other: &ArrayRef) -> (r: bool)
        requires
            self.wf(),
            other.wf(),
        ensures
            r == (self.physical() == other.physical() && self.dtype() == other.dtype()
                && self.cells() == other.cells()),
    {
        let r = match (self, other) {
            (ArrayRef::Boolean(a), ArrayRef::Boolean(b)) => a.equals(b),
            (ArrayRef::Int8(a), ArrayRef::Int8(b)) => a.equals(b),
            (ArrayRef::Int16(a), ArrayRef::Int16(b)) => a.equals(b),
            (ArrayRef::Int32(a), ArrayRef::Int32(b)) => a.equals(b),
            (ArrayRef::Int64(a), ArrayRef::Int64(b)) => a.equals(b),
            (ArrayRef::UInt8(a), ArrayRef::UInt8(b)) => a.equals(b),
            (ArrayRef::UInt16(a), ArrayRef::UInt16(b)) => a.equals(b),
            (ArrayRef::UInt32(a), ArrayRef::UInt32(b)) => a.equals(b),
            (ArrayRef::UInt64(a), ArrayRef::UInt64(b)) => a.equals(b),
            (ArrayRef::Float32(a), ArrayRef::Float32(b)) => a.equals(b),
            (ArrayRef::Float64(a), ArrayRef::Float64(b)) => a.equals(b),
            (ArrayRef::Utf8(a), ArrayRef::Utf8(b)) => a.equals(b),
            (ArrayRef::LargeUtf8(a), ArrayRef::LargeUtf8(b)) => a.equals(b),
            (ArrayRef::Binary(a), ArrayRef::Binary(b)) => a.equals(b),
            (ArrayRef::LargeBinary(a), ArrayRef::LargeBinary(b)) => a.equals(b),
            _ => false,
        };
        proof {
            lemma_cells_determine(self, other);
        }
        r
    }
}

proof fn lemma_native_cells_injective<T: NativeType>(a: Seq<Option<T>>, b: Seq<Option<T>>)
    ensures
        native_cells(a) == native_cells(b) ==> a == b,
{
    if native_cells(a) == native_cells(b) {
        assert(a.len() == native_cells(a).len());
        assert forall|i: int| 0 <= i < a.len() implies a[i] == b[i] by {
            assert(native_cells(a)[i] == native_cells(b)[i]);
            match (a[i], b[i]) {
                (Some(x), Some(y)) => {
                    T::lemma_int_injective(x, y);
                },
                _ => {},
            }
        }
        assert(a =~= b);
    }
}

proof fn lemma_bool_cells_injective(a: Seq<Option<bool>>, b: Seq<Option<bool>>)
    ensures
        bool_cells(a) == bool_cells(b) ==> a == b,
{
    if bool_cells(a) == bool_cells(b) {
        assert(a.len() == bool_cells(a).len() && b.len() == bool_cells(b).len());
        assert forall|i: int| 0 <= i < a.len() implies a[i] == b[i] by {
            assert(bool_cells(a)[i] == bool_cells(b)[i]);
            match (a[i], b[i]) {
                (Some(x), Some(y)) => {},
                _ => {},
            }
        }
        assert(a =~= b);
    }
}

proof fn lemma_byte_cells_injective(a: Seq<Option<Seq<u8>>>, b: Seq<Option<Seq<u8>>>)
    ensures
        byte_cells(a) == byte_cells(b) ==> a == b,
{
    if byte_cells(a) == byte_cells(b) {
        assert(a.len() == byte_cells(a).len() && b.len() == byte_cells(b).len());
        assert forall|i: int| 0 <= i < a.len() implies a[i] == b[i] by {
            assert(byte_cells(a)[i] == byte_cells(b)[i]);
            match (a[i], b[i]) {
                (Some(x), Some(y)) => {},
                _ => {},
            }
        }
        assert(a =~= b);
    }
}

proof fn lemma_cells_determine(x: &ArrayRef, y: &ArrayRef)
    ensures
        x.physical() == y.physical() && x.cells() == y.cells() ==> match (x, y) {
            (ArrayRef::Boolean(a), ArrayRef::Boolean(b)) => a@ == b@,
            (ArrayRef::Int8(a), ArrayRef::Int8(b)) => a@ == b@,
            (ArrayRef::Int16(a), ArrayRef::Int16(b)) => a@ == b@,
            (ArrayRef::Int32(a), ArrayRef::Int32(b)) => a@ == b@,
            (ArrayRef::Int64(a), ArrayRef::Int64(b)) => a@ == b@,
            (ArrayRef::UInt8(a), ArrayRef::UInt8(b)) => a@ == b@,
            (ArrayRef::UInt16(a), ArrayRef::UInt16(b)) => a@ == b@,
            (ArrayRef::UInt32(a), ArrayRef::UInt32(b)) => a@ == b@,
            (ArrayRef::UInt64(a), ArrayRef::UInt64(b)) => a@ == b@,
            (ArrayRef::Float32(a), ArrayRef::Float32(b)) => a@ == b@,
            (ArrayRef::Float64(a), ArrayRef::Float64(b)) => a@ == b@,
            (ArrayRef::Utf8(a), ArrayRef::Utf8(b)) => a@ == b@,
            (ArrayRef::LargeUtf8(a), ArrayRef::LargeUtf8(b)) => a@ == b@,
            (ArrayRef::Binary(a), ArrayRef::Binary(b)) => a@ == b@,
            (ArrayRef::LargeBinary(a), ArrayRef::LargeBinary(b)) => a@ == b@,
            _ => true,
        },
{
    match (x, y) {
        (ArrayRef::Boolean(a), ArrayRef::Boolean(b)) => lemma_bool_cells_injective(a@, b@),
        (ArrayRef::Int8(a), ArrayRef::Int8(b)) => lemma_native_cells_injective(a@, b@),
        (ArrayRef::Int16(a), ArrayRef::Int16(b)) => lemma_native_cells_injective(a@, b@),
        (ArrayRef::Int32(a), ArrayRef::Int32(b)) => lemma_native_cells_injective(a@, b@),
        (ArrayRef::Int64(a), ArrayRef::Int64(b)) => lemma_native_cells_injective(a@, b@),
        (ArrayRef::UInt8(a), ArrayRef::UInt8(b)) => lemma_native_cells_injective(a@, b@),
        (ArrayRef::UInt16(a), ArrayRef::UInt16(b)) => lemma_native_cells_injective(a@, b@),
        (ArrayRef::UInt32(a), ArrayRef::UInt32(b)) => lemma_native_cells_injective(a@, b@),
        (ArrayRef::UInt64(a), ArrayRef::UInt64(b)) => lemma_native_cells_injective(a@, b@),
        (ArrayRef::Float32(a), ArrayRef::Float32(b)) => lemma_native_cells_injective(a@, b@),
        (ArrayRef::Float64(a), ArrayRef::Float64(b)) => lemma_native_cells_injective(a@, b@),
        (ArrayRef::Utf8(a), ArrayRef::Utf8(b)) => lemma_byte_cells_injective(a@, b@),
        (ArrayRef::LargeUtf8(a), ArrayRef::LargeUtf8(b)) => lemma_byte_cells_injective(a@, b@),
        (ArrayRef::Binary(a), ArrayRef::Binary(b)) => lemma_byte_cells_injective(a@, b@),
        (ArrayRef::LargeBinary(a), ArrayRef::LargeBinary(b)) => lemma_byte_cells_injective(a@, b@),
        _ => {},
    }
}

/// A value handed across the boundary by the dynamically-typed host.
#[derive(Debug)]
pub enum HostValue {
    /// An array object, as `to_generic` hands it out.
    Array(ArrayRef),
    /// A sequence of optional booleans.
    Bools(Vec<Option<bool>>),
    /// A sequence of optional integers, of any width up to 128 bits.
    Ints(Vec<Option<i128>>),
    /// A sequence of optional 64-bit floating-point numbers, as bit patterns.
    Floats(Vec<Option<u64>>),
    /// A sequence of optional text values.
    Texts(Vec<Option<String>>),
    /// A sequence of optional byte strings.
    Bytes(Vec<Option<Vec<u8>>>),
    /// Any other host value (floats, decimals, nested values, ...).
    Other,
}

/// No entry of the sequence is absent.
pub open spec fn all_present<A>(s: Seq<Option<A>>) -> bool {
    forall|i: int| 0 <= i < s.len() ==> (#[trigger] s[i]) is Some
}

/// Every present entry lies in `[lo, hi]`.
pub open spec fn ints_within(s: Seq<Option<i128>>, lo: int, hi: int) -> bool {
    forall|i: int| 0 <= i < s.len() && (#[trigger] s[i]) is Some ==> lo <= s[i]->0 <= hi
}

pub open spec fn wide_cells(s: Seq<Option<i128>>) -> Seq<Option<Scalar>> {
    s.map_values(
        |o: Option<i128>|
            match o {
                Some(x) => Some(Scalar::Int(x as int)),
                None => None,
            },
    )
}

pub open spec fn float_cells(s: Seq<Option<u64>>) -> Seq<Option<Scalar>> {
    s.map_values(
        |o: Option<u64>|
            match o {
                Some(x) => Some(Scalar::Int(x as int)),
                None => None,
            },
    )
}

pub open spec fn text_slots(s: Seq<Option<String>>) -> Seq<Option<Seq<u8>>> {
    s.map_values(|o: Option<String>| opt_utf8(o))
}

pub open spec fn byte_slots(s: Seq<Option<Vec<u8>>>) -> Seq<Option<Seq<u8>>> {
    s.map_values(|o: Option<Vec<u8>>| opt_bytes(o))
}

/// Whether the variant of physical type `k` can be built from `v`.
pub open spec fn accepts(k: PhysicalType, v: HostValue) -> bool {
    match v {
        HostValue::Array(a) => a.physical() == k,
        HostValue::Bools(_) => k == PhysicalType::Boolean,
        HostValue::Ints(s) => match k {
            PhysicalType::Int8 => ints_within(s@, i8::MIN as int, i8::MAX as int),
            PhysicalType::Int16 => ints_within(s@, i16::MIN as int, i16::MAX as int),
            PhysicalType::Int32 => ints_within(s@, i32::MIN as int, i32::MAX as int),
            PhysicalType::Int64 => ints_within(s@, i64::MIN as int, i64::MAX as int),
            PhysicalType::UInt8 => ints_within(s@, 0, u8::MAX as int),
            PhysicalType::UInt16 => ints_within(s@, 0, u16::MAX as int),
            PhysicalType::UInt32 => ints_within(s@, 0, u32::MAX as int),
            PhysicalType::UInt64 => ints_within(s@, 0, u64::MAX as int),
            _ => false,
        },
        HostValue::Floats(_) => k == PhysicalType::Float64,
        HostValue::Texts(s) => match k {
            PhysicalType::Utf8 => fits_offsets::<i32>(text_slots(s@)),
            PhysicalType::LargeUtf8 => fits_offsets::<i64>(text_slots(s@)),
            _ => false,
        },
        HostValue::Bytes(s) => match k {
            PhysicalType::Binary => fits_offsets::<i32>(byte_slots(s@)),
            PhysicalType::LargeBinary => fits_offsets::<i64>(byte_slots(s@)),
            _ => false,
        },
        HostValue::Other => false,
    }
}

/// The order in which `from_generic` tries the variants.
pub open spec fn probe_order() -> Seq<PhysicalType> {
    seq![
        PhysicalType::Boolean,
        PhysicalType::Int8,
        PhysicalType::Int16,
        PhysicalType::Int32,
        PhysicalType::Int64,
        PhysicalType::UInt8,
        PhysicalType::UInt16,
        PhysicalType::UInt32,
        PhysicalType::UInt64,
        PhysicalType::Float32,
        PhysicalType::Float64,
        PhysicalType::Utf8,
        PhysicalType::LargeUtf8,
        PhysicalType::Binary,
        PhysicalType::LargeBinary,
    ]
}

/// The first variant from position `i` of the probe order that accepts `v`.
pub open spec fn first_accepting(v: HostValue, i: int) -> Option<PhysicalType>
    decreases 15 - i,
{
    if i < 0 || i >= 15 {
        None
    } else if accepts(probe_order()[i], v) {
        Some(probe_order()[i])
    } else {
        first_accepting(v, i + 1)
    }
}

/// The variant that `v` resolves to, if any.
pub open spec fn resolved(v: HostValue) -> Option<PhysicalType> {
    first_accepting(v, 0)
}

/// The slots that `v` describes.
pub open spec fn host_cells(v: HostValue) -> Seq<Option<Scalar>> {
    match v {
        HostValue::Array(a) => a.cells(),
        HostValue::Bools(s) => bool_cells(s@),
        HostValue::Ints(s) => wide_cells(s@),
        HostValue::Floats(s) => float_cells(s@),
        HostValue::Texts(s) => byte_cells(text_slots(s@)),
        HostValue::Bytes(s) => byte_cells(byte_slots(s@)),
        HostValue::Other => Seq::empty(),
    }
}

/// Whether the sequence that `v` holds has no absent entry.
pub open spec fn host_dense(v: HostValue) -> bool {
    match v {
        HostValue::Bools(s) => all_present(s@),
        HostValue::Ints(s) => all_present(s@),
        HostValue::Floats(s) => all_present(s@),
        HostValue::Texts(s) => all_present(s@),
        HostValue::Bytes(s) => all_present(s@),
        _ => true,
    }
}

impl HostValue {
    pub open spec fn wf(&self) -> bool {
        self matches HostValue::Array(a) ==> a.wf()
    }
}

/// The order in which `from_generic` tries the variants.
pub fn probe_order_vec() -> (r: Vec<PhysicalType>)
    ensures
        r@ == probe_order(),
{
    let r = vec![
        PhysicalType::Boolean,
        PhysicalType::Int8,
        PhysicalType::Int16,
        PhysicalType::Int32,
        PhysicalType::Int64,
        PhysicalType::UInt8,
        PhysicalType::UInt16,
        PhysicalType::UInt32,
        PhysicalType::UInt64,
        PhysicalType::Float32,
        PhysicalType::Float64,
        PhysicalType::Utf8,
        PhysicalType::LargeUtf8,
        PhysicalType::Binary,
        PhysicalType::LargeBinary,
    ];
    assert(r@ =~= probe_order());
    r
}

fn present_bools(s: &Vec<Option<bool>>) -> (r: Option<Vec<bool>>)
    ensures
        r is Some == all_present(s@),
        r matches Some(v) ==> v@.map_values(|b: bool| Some(b)) == s@,
{
    let mut out: Vec<bool> = Vec::new();
    let mut i: usize = 0;
    while i < s.len()
        invariant
            i <= s@.len(),
            out@.len() == i,
            forall|k: int| 0 <= k < i ==> s@[k] == Some(#[trigger] out@[k]),
        decreases s@.len() - i,
    {
        match s[i] {
            Some(b) => out.push(b),
            None => return None,
        }
        i = i + 1;
    }
    assert(out@.map_values(|b: bool| Some(b)) =~= s@);
    Some(out)
}

fn bools_array(s: &Vec<Option<bool>>) -> (r: BooleanArray)
    ensures
        r.wf(),
        bool_cells(r@) == bool_cells(s@),
        r.has_bitmap() == !all_present(s@),
{
    match present_bools(s) {
        Some(v) => BooleanArray::from_vec(v),
        None => {
            let mut copy: Vec<Option<bool>> = Vec::new();
            let mut i: usize = 0;
            while i < s.len()
                invariant
                    i <= s@.len(),
                    copy@ == s@.subrange(0, i as int),
                decreases s@.len() - i,
            {
                copy.push(s[i]);
                i = i + 1;
            }
            assert(copy@ =~= s@);
            BooleanArray::from_options(copy)
        },
    }
}

fn ints_array<T: NativeType>(s: &Vec<Option<i128>>) -> (r: Option<PrimitiveArray<T>>)
    ensures
        r is Some == ints_within(s@, T::min_int(), T::max_int()),
        r matches Some(a) ==> a.wf() && native_cells(a@) == wide_cells(s@) && a.dtype() == natural_tag(
            T::physical(),
        ) && a.has_bitmap() == !all_present(s@),
{
    let mut slots: Vec<Option<T>> = Vec::new();
    let mut dense: Vec<T> = Vec::new();
    let mut all: bool = true;
    let mut i: usize = 0;
    while i < s.len()
        invariant
            i <= s@.len(),
            slots@.len() == i,
            all ==> dense@.len() == i,
            all == all_present(s@.subrange(0, i as int)),
            ints_within(s@.subrange(0, i as int), T::min_int(), T::max_int()),
            forall|k: int|
                0 <= k < i ==> match (s@[k], #[trigger] slots@[k]) {
                    (Some(x), Some(y)) => y.spec_int() == x,
                    (None, None) => true,
                    _ => false,
                },
            all ==> forall|k: int| 0 <= k < i ==> slots@[k] == Some(#[trigger] dense@[k]),
        decreases s@.len() - i,
    {
        match s[i] {
            Some(x) => {
                if !T::fits_wide(x) {
                    assert(s@[i as int] is Some);
                    return None;
                }
                let y = T::from_wide(x);
                slots.push(Some(y));
                if all {
                    dense.push(y);
                }
            },
            None => {
                slots.push(None);
                all = false;
            },
        }
        proof {
            let prev = s@.subrange(0, i as int);
            let next = s@.subrange(0, i + 1);
            assert forall|k: int| 0 <= k < i implies next[k] == prev[k] by {}
            assert(next[i as int] == s@[i as int]);
            if all_present(next) {
                assert forall|k: int| 0 <= k < prev.len() implies (#[trigger] prev[k]) is Some by {
                    assert(next[k] is Some);
                }
            }
            if all_present(prev) && s@[i as int] is Some {
                assert forall|k: int| 0 <= k < next.len() implies (#[trigger] next[k]) is Some by {
                    if k < i {
                        assert(prev[k] is Some);
                    }
                }
            }
            assert(!(s@[i as int] is Some) ==> !all_present(next));
        }
        i = i + 1;
    }
    assert(s@.subrange(0, s@.len() as int) =~= s@);
    if all {
        let a = PrimitiveArray::from_vec(dense);
        assert(native_cells(a@) =~= wide_cells(s@));
        Some(a)
    } else {
        let a = PrimitiveArray::from_options(slots);
        assert(native_cells(a@) =~= wide_cells(s@));
        Some(a)
    }
}

fn floats_array(s: &Vec<Option<u64>>) -> (r: PrimitiveArray<Float64Bits>)
    ensures
        r.wf(),
        native_cells(r@) == float_cells(s@),
        r.dtype() == TypeTag::Float64,
        r.has_bitmap() == !all_present(s@),
{
    let mut slots: Vec<Option<Float64Bits>> = Vec::new();
    let mut dense: Vec<Float64Bits> = Vec::new();
    let mut all: bool = true;
    let mut i: usize = 0;
    while i < s.len()
        invariant
            i <= s@.len(),
            slots@.len() == i,
            all ==> dense@.len() == i,
            all ==> forall|k: int| 0 <= k < i ==> (#[trigger] s@[k]) is Some,
            !all ==> !all_present(s@),
            forall|k: int|
                0 <= k < i ==> match (s@[k], #[trigger] slots@[k]) {
                    (Some(x), Some(y)) => y.0 == x,
                    (None, None) => true,
                    _ => false,
                },
            all ==> forall|k: int| 0 <= k < i ==> slots@[k] == Some(#[trigger] dense@[k]),
        decreases s@.len() - i,
    {
        match s[i] {
            Some(x) => {
                slots.push(Some(Float64Bits(x)));
                if all {
                    dense.push(Float64Bits(x));
                }
            },
            None => {
                slots.push(None);
                all = false;
            },
        }
        i = i + 1;
    }
    if all {
        let a = PrimitiveArray::from_vec(dense);
        assert(native_cells(a@) =~= float_cells(s@));
        a
    } else {
        let a = PrimitiveArray::from_options(slots);
        assert(native_cells(a@) =~= float_cells(s@));
        a
    }
}

fn texts_array<O: Offset>(s: &Vec<Option<String>>) -> (r: Option<Utf8Array<O>>)
    ensures
        r is Some == fits_offsets::<O>(text_slots(s@)),
        r matches Some(a) ==> a.wf() && a@ == text_slots(s@) && a.has_bitmap() == !all_present(s@),
{
    if !Utf8Array::<O>::fits_text(s) {
        return None;
    }
    let mut dense: Vec<String> = Vec::new();
    let mut i: usize = 0;
    while i < s.len()
        invariant
            fits_offsets::<O>(text_slots(s@)),
            i <= s@.len(),
            dense@.len() == i,
            forall|k: int| 0 <= k < i ==> opt_utf8(s@[k]) == Some(encode_utf8((#[trigger] dense@[k])@)),
        decreases s@.len() - i,
    {
        match &s[i] {
            Some(t) => dense.push(t.clone()),
            None => {
                assert(text_slots(s@) == s@.map_values(|o| opt_utf8(o)));
                assert(!all_present(s@) && s@[i as int] is None);
                let a = Utf8Array::<O>::from_options(s);
                return Some(a);
            },
        }
        i = i + 1;
    }
    assert(dense@.map_values(|t: String| Some(encode_utf8(t@))) =~= text_slots(s@));
    assert forall|k: int| 0 <= k < s@.len() implies (#[trigger] s@[k]) is Some by {
        assert(opt_utf8(s@[k]) == Some(encode_utf8(dense@[k]@)));
    }
    Some(Utf8Array::<O>::from_vec(dense))
}

fn bytes_array<O: Offset>(s: &Vec<Option<Vec<u8>>>) -> (r: Option<BinaryArray<O>>)
    ensures
        r is Some == fits_offsets::<O>(byte_slots(s@)),
        r matches Some(a) ==> a.wf() && a@ == byte_slots(s@) && a.has_bitmap() == !all_present(s@),
{
    if !crate::binary::fits::<O>(s) {
        return None;
    }
    let mut dense: Vec<Vec<u8>> = Vec::new();
    let mut i: usize = 0;
    while i < s.len()
        invariant
            fits_offsets::<O>(byte_slots(s@)),
            i <= s@.len(),
            dense@.len() == i,
            forall|k: int| 0 <= k < i ==> opt_bytes(s@[k]) == Some((#[trigger] dense@[k])@),
        decreases s@.len() - i,
    {
        match &s[i] {
            Some(b) => dense.push(vstd::slice::slice_to_vec(b.as_slice())),
            None => {
                assert(byte_slots(s@) == s@.map_values(|o| opt_bytes(o)));
                assert(!all_present(s@) && s@[i as int] is None);
                let a = BinaryArray::<O>::from_options(s);
                return Some(a);
            },
        }
        i = i + 1;
    }
    assert(dense@.map_values(|v: Vec<u8>| Some(v@)) =~= byte_slots(s@));
    assert forall|k: int| 0 <= k < s@.len() implies (#[trigger] s@[k]) is Some by {
        assert(opt_bytes(s@[k]) == Some(dense@[k]@));
    }
    Some(BinaryArray::<O>::from_vec(dense))
}

/// Builds the variant of physical type `k` from a host sequence, if that
/// variant accepts it.
fn try_build(k: PhysicalType, v: &HostValue) -> (r: Option<ArrayRef>)
    requires
        !(v is Array),
    ensures
        r is Some == accepts(k, *v),
        r matches Some(a) ==> a.wf() && a.physical() == k && a.cells() == host_cells(*v)
            && a.dtype() == natural_tag(k) && a.has_bitmap() == !host_dense(*v),
{
    match v {
        HostValue::Bools(s) => match k {
            PhysicalType::Boolean => Some(ArrayRef::Boolean(bools_array(s))),
            _ => None,
        },
        HostValue::Ints(s) => match k {
            PhysicalType::Int8 => match ints_array::<i8>(s) {
                Some(a) => Some(ArrayRef::Int8(a)),
                None => None,
            },
            PhysicalType::Int16 => match ints_array::<i16>(s) {
                Some(a) => Some(ArrayRef::Int16(a)),
                None => None,
            },
            PhysicalType::Int32 => match ints_array::<i32>(s) {
                Some(a) => Some(ArrayRef::Int32(a)),
                None => None,
            },
            PhysicalType::Int64 => match ints_array::<i64>(s) {
                Some(a) => Some(ArrayRef::Int64(a)),
                None => None,
            },
            PhysicalType::UInt8 => match ints_array::<u8>(s) {
                Some(a) => Some(ArrayRef::UInt8(a)),
                None => None,
            },
            PhysicalType::UInt16 => match ints_array::<u16>(s) {
                Some(a) => Some(ArrayRef::UInt16(a)),
                None => None,
            },
            PhysicalType::UInt32 => match ints_array::<u32>(s) {
                Some(a) => Some(ArrayRef::UInt32(a)),
                None => None,
            },
            PhysicalType::UInt64 => match ints_array::<u64>(s) {
                Some(a) => Some(ArrayRef::UInt64(a)),
                None => None,
            },
            _ => None,
        },
        HostValue::Floats(s) => match k {
            PhysicalType::Float64 => Some(ArrayRef::Float64(floats_array(s))),
            _ => None,
        },
        HostValue::Texts(s) => match k {
            PhysicalType::Utf8 => match texts_array::<i32>(s) {
                Some(a) => Some(ArrayRef::Utf8(a)),
                None => None,
            },
            PhysicalType::LargeUtf8 => match texts_array::<i64>(s) {
                Some(a) => Some(ArrayRef::LargeUtf8(a)),
                None => None,
            },
            _ => None,
        },
        HostValue::Bytes(s) => match k {
            PhysicalType::Binary => match bytes_array::<i32>(s) {
                Some(a) => Some(ArrayRef::Binary(a)),
                None => None,
            },
            PhysicalType::LargeBinary => match bytes_array::<i64>(s) {
                Some(a) => Some(ArrayRef::LargeBinary(a)),
                None => None,
            },
            _ => None,
        },
        _ => None,
    }
}

impl ArrayRef {
    /// The constructor of the variant of physical type `kind`: it takes an
    /// array object of that variant as it is, or builds one from a host
    /// sequence that the variant accepts (without a validity bitmap when no
    /// entry is absent); any other value is a `TypeMismatch`.
    pub fn new(kind: PhysicalType, value: HostValue) -> (r: Result<ArrayRef, Error>)
        requires
            value.wf(),
        ensures
            r is Ok == accepts(kind, value),
            r matches Ok(a) ==> a.wf() && a.physical() == kind && a.cells() == host_cells(value),
            r matches Ok(a) ==> (value matches HostValue::Array(a0) ==> a == a0),
            r matches Ok(a) ==> (!(value is Array) ==> a.dtype() == natural_tag(kind)
                && a.has_bitmap() == !host_dense(value)),
            r matches Err(e) ==> e is TypeMismatch,
    {
        if let HostValue::Array(a) = value {
            if a.physical_type() == kind {
                return Ok(a);
            } else {
                return Err(Error::TypeMismatch);
            }
        }
        match try_build(kind, &value) {
            Some(a) => Ok(a),
            None => Err(Error::TypeMismatch),
        }
    }
}

/// An array object resolves to its own variant: no other accepts it.
pub proof fn lemma_array_resolves_to_own_variant(a: ArrayRef)
    ensures
        resolved(HostValue::Array(a)) == Some(a.physical()),
{
    reveal_with_fuel(first_accepting, 16);
}

/// A sequence with an integer outside both the 64-bit signed and the 64-bit
/// unsigned range resolves to no variant.
pub proof fn lemma_wide_ints_unsupported(s: Vec<Option<i128>>, i: int)
    requires
        0 <= i < s@.len(),
        s@[i] matches Some(x) && (x < i64::MIN || x > u64::MAX),
    ensures
        resolved(HostValue::Ints(s)) is None,
{
    reveal_with_fuel(first_accepting, 16);
}

/// Hands an array to the host as an object that carries its variant.
pub fn to_generic(array: ArrayRef) -> (r: HostValue)
    requires
        array.wf(),
    ensures
        r == HostValue::Array(array),
        r.wf(),
        resolved(r) == Some(array.physical()),
{
    proof {
        lemma_array_resolves_to_own_variant(array);
    }
    HostValue::Array(array)
}

/// Recovers a typed array from a host value: the first variant, in probe
/// order, that accepts the value builds it; `UnsupportedType` when none does.
pub fn from_generic(value: HostValue) -> (r: Result<ArrayRef, Error>)
    requires
        value.wf(),
    ensures
        r is Ok == resolved(value) is Some,
        r matches Ok(a) ==> a.wf() && Some(a.physical()) == resolved(value) && a.cells()
            == host_cells(value),
        r matches Ok(a) ==> (value matches HostValue::Array(a0) ==> a == a0),
        r matches Ok(a) ==> (!(value is Array) ==> a.dtype() == natural_tag(a.physical())
            && a.has_bitmap() == !host_dense(value)),
        r matches Err(e) ==> e is UnsupportedType,
{
    if let HostValue::Array(a) = value {
        proof {
            lemma_array_resolves_to_own_variant(a);
        }
        return Ok(a);
    }
    let order = probe_order_vec();
    let mut i: usize = 0;
    while i < order.len()
        invariant
            !(value is Array),
            order@ == probe_order(),
            i <= 15,
            resolved(value) == first_accepting(value, i as int),
        decreases 15 - i,
    {
        match try_build(order[i], &value) {
            Some(a) => {
                return Ok(a);
            },
            None => {},
        }
        i = i + 1;
    }
    Err(Error::UnsupportedType)
}

} // verus!
