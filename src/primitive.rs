use vstd::prelude::*;

use crate::bitmap::Validity;
use crate::datatypes::{physical_of, DataType, PhysicalType, TimeUnit, TypeTag, opt_text};

verus! {

/// A fixed-width type that can back a primitive array.
pub trait NativeType: Copy + Sized {
    /// The integer this value stands for: the value of an integer, the bit
    /// pattern of a floating-point number.
    spec fn spec_int(self) -> int;

    /// Smallest value of the type.
    spec fn min_int() -> int;

    /// Largest value of the type.
    spec fn max_int() -> int;

    /// The physical type of arrays of this type.
    spec fn physical() -> PhysicalType;

    /// The value stored in a slot that holds no value.
    fn zero() -> (r: Self)
        ensures
            r.spec_int() == 0,
    ;

    /// Value equality.
    fn same(&self, other: &Self) -> (r: bool)
        ensures
            r == (*self == *other),
    ;

    /// Narrows a wide integer that the type can hold.
    fn from_wide(x: i128) -> (r: Self)
        requires
            Self::min_int() <= x <= Self::max_int(),
        ensures
            r.spec_int() == x,
    ;

    /// Whether a wide integer lies in the type's range.
    fn fits_wide(x: i128) -> (r: bool)
        ensures
            r == (Self::min_int() <= x <= Self::max_int()),
    ;

    /// The logical type of an array of this type that has not been reinterpreted.
    fn natural_type() -> (r: DataType)
        ensures
            physical_of(r@) == Self::physical(),
            r@ == natural_tag(Self::physical()),
    ;

    /// The integer determines the value.
    proof fn lemma_int_injective(a: Self, b: Self)
        ensures
            a.spec_int() == b.spec_int() ==> a == b,
    ;
}

/// The logical type that an array of the given physical type carries by default.
pub open spec fn natural_tag(p: PhysicalType) -> TypeTag {
    match p {
        PhysicalType::Boolean => TypeTag::Boolean,
        PhysicalType::Int8 => TypeTag::Int8,
        PhysicalType::Int16 => TypeTag::Int16,
        PhysicalType::Int32 => TypeTag::Int32,
        PhysicalType::Int64 => TypeTag::Int64,
        PhysicalType::UInt8 => TypeTag::UInt8,
        PhysicalType::UInt16 => TypeTag::UInt16,
        PhysicalType::UInt32 => TypeTag::UInt32,
        PhysicalType::UInt64 => TypeTag::UInt64,
        PhysicalType::Float32 => TypeTag::Float32,
        PhysicalType::Float64 => TypeTag::Float64,
        PhysicalType::Utf8 => TypeTag::Utf8,
        PhysicalType::LargeUtf8 => TypeTag::LargeUtf8,
        PhysicalType::Binary => TypeTag::Binary,
        PhysicalType::LargeBinary => TypeTag::LargeBinary,
    }
}

impl NativeType for i8 {
    open spec fn spec_int(self) -> int {
        self as int
    }

    open spec fn min_int() -> int {
        i8::MIN as int
    }

    open spec fn max_int() -> int {
        i8::MAX as int
    }

    open spec fn physical() -> PhysicalType {
        PhysicalType::Int8
    }

    fn zero() -> (r: i8) {
        0
    }

    fn same(&self, other: &i8) -> (r: bool) {
        *self == *other
    }

    fn from_wide(x: i128) -> (r: i8) {
        x as i8
    }

    fn fits_wide(x: i128) -> (r: bool) {
        i8::MIN as i128 <= x && x <= i8::MAX as i128
    }

    fn natural_type() -> (r: DataType) {
        DataType::Int8
    }

    proof fn lemma_int_injective(a: i8, b: i8) {
    }
}

impl NativeType for i16 {
    open spec fn spec_int(self) -> int {
        self as int
    }

    open spec fn min_int() -> int {
        i16::MIN as int
    }

    open spec fn max_int() -> int {
        i16::MAX as int
    }

    open spec fn physical() -> PhysicalType {
        PhysicalType::Int16
    }

    fn zero() -> (r: i16) {
        0
    }

    fn same(&self, other: &i16) -> (r: bool) {
        *self == *other
    }

    fn from_wide(x: i128) -> (r: i16) {
        x as i16
    }

    fn fits_wide(x: i128) -> (r: bool) {
        i16::MIN as i128 <= x && x <= i16::MAX as i128
    }

    fn natural_type() -> (r: DataType) {
        DataType::Int16
    }

    proof fn lemma_int_injective(a: i16, b: i16) {
    }
}

impl NativeType for i32 {
    open spec fn spec_int(self) -> int {
        self as int
    }

    open spec fn min_int() -> int {
        i32::MIN as int
    }

    open spec fn max_int() -> int {
        i32::MAX as int
    }

    open spec fn physical() -> PhysicalType {
        PhysicalType::Int32
    }

    fn zero() -> (r: i32) {
        0
    }

    fn same(&self, other: &i32) -> (r: bool) {
        *self == *other
    }

    fn from_wide(x: i128) -> (r: i32) {
        x as i32
    }

    fn fits_wide(x: i128) -> (r: bool) {
        i32::MIN as i128 <= x && x <= i32::MAX as i128
    }

    fn natural_type() -> (r: DataType) {
        DataType::Int32
    }

    proof fn lemma_int_injective(a: i32, b: i32) {
    }
}

impl NativeType for i64 {
    open spec fn spec_int(self) -> int {
        self as int
    }

    open spec fn min_int() -> int {
        i64::MIN as int
    }

    open spec fn max_int() -> int {
        i64::MAX as int
    }

    open spec fn physical() -> PhysicalType {
        PhysicalType::Int64
    }

    fn zero() -> (r: i64) {
        0
    }

    fn same(&self, other: &i64) -> (r: bool) {
        *self == *other
    }

    fn from_wide(x: i128) -> (r: i64) {
        x as i64
    }

    fn fits_wide(x: i128) -> (r: bool) {
        i64::MIN as i128 <= x && x <= i64::MAX as i128
    }

    fn natural_type() -> (r: DataType) {
        DataType::Int64
    }

    proof fn lemma_int_injective(a: i64, b: i64) {
    }
}

impl NativeType for u8 {
    open spec fn spec_int(self) -> int {
        self as int
    }

    open spec fn min_int() -> int {
        0
    }

    open spec fn max_int() -> int {
        u8::MAX as int
    }

    open spec fn physical() -> PhysicalType {
        PhysicalType::UInt8
    }

    fn zero() -> (r: u8) {
        0
    }

    fn same(&self, other: &u8) -> (r: bool) {
        *self == *other
    }

    fn from_wide(x: i128) -> (r: u8) {
        x as u8
    }

    fn fits_wide(x: i128) -> (r: bool) {
        0 <= x && x <= u8::MAX as i128
    }

    fn natural_type() -> (r: DataType) {
        DataType::UInt8
    }

    proof fn lemma_int_injective(a: u8, b: u8) {
    }
}

impl NativeType for u16 {
    open spec fn spec_int(self) -> int {
        self as int
    }

    open spec fn min_int() -> int {
        0
    }

    open spec fn max_int() -> int {
        u16::MAX as int
    }

    open spec fn physical() -> PhysicalType {
        PhysicalType::UInt16
    }

    fn zero() -> (r: u16) {
        0
    }

    fn same(&self, other: &u16) -> (r: bool) {
        *self == *other
    }

    fn from_wide(x: i128) -> (r: u16) {
        x as u16
    }

    fn fits_wide(x: i128) -> (r: bool) {
        0 <= x && x <= u16::MAX as i128
    }

    fn natural_type() -> (r: DataType) {
        DataType::UInt16
    }

    proof fn lemma_int_injective(a: u16, b: u16) {
    }
}

impl NativeType for u32 {
    open spec fn spec_int(self) -> int {
        self as int
    }

    open spec fn min_int() -> int {
        0
    }

    open spec fn max_int() -> int {
        u32::MAX as int
    }

    open spec fn physical() -> PhysicalType {
        PhysicalType::UInt32
    }

    fn zero() -> (r: u32) {
        0
    }

    fn same(&self, other: &u32) -> (r: bool) {
        *self == *other
    }

    fn from_wide(x: i128) -> (r: u32) {
        x as u32
    }

    fn fits_wide(x: i128) -> (r: bool) {
        0 <= x && x <= u32::MAX as i128
    }

    fn natural_type() -> (r: DataType) {
        DataType::UInt32
    }

    proof fn lemma_int_injective(a: u32, b: u32) {
    }
}

impl NativeType for u64 {
    open spec fn spec_int(self) -> int {
        self as int
    }

    open spec fn min_int() -> int {
        0
    }

    open spec fn max_int() -> int {
        u64::MAX as int
    }

    open spec fn physical() -> PhysicalType {
        PhysicalType::UInt64
    }

    fn zero() -> (r: u64) {
        0
    }

    fn same(&self, other: &u64) -> (r: bool) {
        *self == *other
    }

    fn from_wide(x: i128) -> (r: u64) {
        x as u64
    }

    fn fits_wide(x: i128) -> (r: bool) {
        0 <= x && x <= u64::MAX as i128
    }

    fn natural_type() -> (r: DataType) {
        DataType::UInt64
    }

    proof fn lemma_int_injective(a: u64, b: u64) {
    }
}

/// A 32-bit IEEE 754 number, held as its bit pattern.
#[derive(Clone, Copy, Debug, PartialEq, Eq, Structural)]
pub struct Float32Bits(pub u32);

/// A 64-bit IEEE 754 number, held as its bit pattern.
#[derive(Clone, Copy, Debug, PartialEq, Eq, Structural)]
pub struct Float64Bits(pub u64);

impl NativeType for Float32Bits {
    open spec fn spec_int(self) -> int {
        self.0 as int
    }

    open spec fn min_int() -> int {
        0
    }

    open spec fn max_int() -> int {
        u32::MAX as int
    }

    open spec fn physical() -> PhysicalType {
        PhysicalType::Float32
    }

    fn zero() -> (r: Float32Bits) {
        Float32Bits(0)
    }

    fn same(&self, other: &Float32Bits) -> (r: bool) {
        self.0 == other.0
    }

    fn from_wide(x: i128) -> (r: Float32Bits) {
        Float32Bits(x as u32)
    }

    fn fits_wide(x: i128) -> (r: bool) {
        0 <= x && x <= u32::MAX as i128
    }

    fn natural_type() -> (r: DataType) {
        DataType::Float32
    }

    proof fn lemma_int_injective(a: Float32Bits, b: Float32Bits) {
    }
}

impl NativeType for Float64Bits {
    open spec fn spec_int(self) -> int {
        self.0 as int
    }

    open spec fn min_int() -> int {
        0
    }

    open spec fn max_int() -> int {
        u64::MAX as int
    }

    open spec fn physical() -> PhysicalType {
        PhysicalType::Float64
    }

    fn zero() -> (r: Float64Bits) {
        Float64Bits(0)
    }

    fn same(&self, other: &Float64Bits) -> (r: bool) {
        self.0 == other.0
    }

    fn from_wide(x: i128) -> (r: Float64Bits) {
        Float64Bits(x as u64)
    }

    fn fits_wide(x: i128) -> (r: bool) {
        0 <= x && x <= u64::MAX as i128
    }

    fn natural_type() -> (r: DataType) {
        DataType::Float64
    }

    proof fn lemma_int_injective(a: Float64Bits, b: Float64Bits) {
    }
}

/// What the `k`-th call of `next` returns on a fresh iterator over slots `s`:
/// slot `k`, or `None` once past the last slot.
pub open spec fn nth_yield<A>(s: Seq<Option<A>>, k: int) -> Option<Option<A>> {
    if 0 <= k < s.len() {
        Some(s[k])
    } else {
        None
    }
}

/// An array built from a sequence of optional values (whose slots are then
/// that sequence) yields, when iterated from the start, each entry in order
/// with its presence or absence and its value, and then the end.
pub proof fn lemma_iteration_reproduces<A>(values: Seq<Option<A>>, slots: Seq<Option<A>>)
    requires
        slots == values,
    ensures
        forall|k: int| 0 <= k < values.len() ==> #[trigger] nth_yield(slots, k) == Some(values[k]),
        nth_yield(slots, values.len() as int) is None,
{
}

/// An immutable array of fixed-width integers, each slot present or null.
#[derive(Debug)]
pub struct PrimitiveArray<T> {
    data_type: DataType,
    values: Vec<T>,
    validity: Validity,
}

pub type Int8Array = PrimitiveArray<i8>;

pub type Int16Array = PrimitiveArray<i16>;

pub type Int32Array = PrimitiveArray<i32>;

pub type Int64Array = PrimitiveArray<i64>;

pub type UInt8Array = PrimitiveArray<u8>;

pub type UInt16Array = PrimitiveArray<u16>;

pub type UInt32Array = PrimitiveArray<u32>;

pub type UInt64Array = PrimitiveArray<u64>;

/// Compares, like every primitive array, by bit pattern: a NaN equals a NaN
/// of the same bits, and zero differs from negative zero.
pub type Float32Array = PrimitiveArray<Float32Bits>;

pub type Float64Array = PrimitiveArray<Float64Bits>;

impl<T: NativeType> View for PrimitiveArray<T> {
    type V = Seq<Option<T>>;

    closed spec fn view(&self) -> Seq<Option<T>> {
        Seq::new(
            self.values@.len(),
            |i: int|
                if self.validity.valid_at(i) {
                    Some(self.values@[i])
                } else {
                    None
                },
        )
    }
}

impl<T: NativeType> PrimitiveArray<T> {
    /// The validity fits the values, and the logical type is backed by `T`.
    pub closed spec fn wf(&self) -> bool {
        &&& self.validity.wf_for(self.values@.len())
        &&& physical_of(self.data_type@) == T::physical()
    }

    /// The logical type of the array.
    pub closed spec fn dtype(&self) -> TypeTag {
        self.data_type@
    }

    /// Whether the array carries a validity bitmap.
    pub closed spec fn has_bitmap(&self) -> bool {
        self.validity is Bitmap
    }

    /// An array of present values, without a validity bitmap.
    pub fn from_vec(values: Vec<T>) -> (r: Self)
        ensures
            r.wf(),
            r@ == values@.map_values(|v: T| Some(v)),
            r.dtype() == natural_tag(T::physical()),
            !r.has_bitmap(),
    {
        let r = PrimitiveArray { data_type: T::natural_type(), values, validity: Validity::NoNulls };
        assert(r@ =~= values@.map_values(|v: T| Some(v)));
        r
    }

    /// An array of optional values; absent entries are null, and marked so in
    /// a validity bitmap.
    pub fn from_options(values: Vec<Option<T>>) -> (r: Self)
        ensures
            r.wf(),
            r@ == values@,
            r.dtype() == natural_tag(T::physical()),
            r.has_bitmap(),
    {
        let validity = Validity::of_options(&values);
        let mut slots: Vec<T> = Vec::new();
        let mut i: usize = 0;
        while i < values.len()
            invariant
                i <= values@.len(),
                slots@.len() == i,
                forall|j: int| 0 <= j < i && (#[trigger] values@[j]) is Some ==> slots@[j] == values@[j]->0,
            decreases values@.len() - i,
        {
            match &values[i] {
                Some(v) => slots.push(*v),
                None => slots.push(T::zero()),
            }
            i = i + 1;
        }
        let r = PrimitiveArray { data_type: T::natural_type(), values: slots, validity };
        assert(r@ =~= values@);
        r
    }

    /// Number of slots.
    pub fn len(&self) -> (r: usize)
        ensures
            r == self@.len(),
    {
        self.values.len()
    }

    /// Whether slot `i` holds a value.
    pub fn is_valid(&self, i: usize) -> (r: bool)
        requires
            self.wf(),
            i < self@.len(),
        ensures
            r == (self@[i as int] is Some),
    {
        self.validity.is_valid(i, self.values.len())
    }

    /// The raw content of slot `i`; for a null slot this is no real data.
    pub fn value(&self, i: usize) -> (r: T)
        requires
            i < self@.len(),
        ensures
            self@[i as int] is Some ==> self@[i as int] == Some(r),
    {
        self.values[i]
    }

    /// Slot `i`: its value, or `None` where it is null.
    pub fn get(&self, i: usize) -> (r: Option<T>)
        requires
            self.wf(),
            i < self@.len(),
        ensures
            r == self@[i as int],
    {
        if self.validity.is_valid(i, self.values.len()) {
            Some(self.values[i])
        } else {
            None
        }
    }

    /// The logical type of the array.
    pub fn data_type(&self) -> (r: &DataType)
        ensures
            r@ == self.dtype(),
    {
        &self.data_type
    }

    /// The value buffer, null slots included.
    pub fn values(&self) -> (r: &Vec<T>)
        ensures
            r@.len() == self@.len(),
            forall|i: int| 0 <= i < self@.len() && self@[i] is Some ==> self@[i] == Some(#[trigger] r@[i]),
    {
        &self.values
    }

    /// The validity of the slots.
    pub fn validity(&self) -> (r: &Validity)
        requires
            self.wf(),
        ensures
            r.wf_for(self@.len()),
            r is Bitmap == self.has_bitmap(),
            forall|i: int| 0 <= i < self@.len() ==> r.valid_at(i) == (self@[i] is Some),
    {
        &self.validity
    }

    /// A fresh iterator over the slots, from the first.
    pub fn iter(&self) -> (r: PrimitiveIter<'_, T>)
        ensures
            r.array == self,
            r.pos == 0,
    {
        PrimitiveIter { array: self, pos: 0 }
    }

    /// All slots in order, as optional values.
    pub fn to_options(&self) -> (r: Vec<Option<T>>)
        requires
            self.wf(),
        ensures
            r@ == self@,
    {
        let mut it = self.iter();
        let mut out: Vec<Option<T>> = Vec::new();
        loop
            invariant
                it.array == self,
                self.wf(),
                it.pos <= self@.len(),
                out@ == self@.subrange(0, it.pos as int),
            ensures
                out@ == self@,
            decreases self@.len() - it.pos,
        {
            match it.next() {
                Some(slot) => out.push(slot),
                None => {
                    assert(out@ =~= self@);
                    break;
                },
            }
        }
        out
    }

    /// Same values and validity, under another logical type of the same
    /// physical representation.
    fn retag(self, data_type: DataType) -> (r: Self)
        requires
            self.wf(),
            physical_of(data_type@) == T::physical(),
        ensures
            r.wf(),
            r@ == self@,
            r.dtype() == data_type@,
            r.has_bitmap() == self.has_bitmap(),
    {
        PrimitiveArray { data_type, values: self.values, validity: self.validity }
    }

    /// Equal type, and equal slots: a null's raw content does not count.
    pub fn equals(&self, other: &Self) -> (r: bool)
        requires
            self.wf(),
            other.wf(),
        ensures
            r == (self.dtype() == other.dtype() && self@ == other@),
    {
        if !(self.data_type == other.data_type) {
            return false;
        }
        if self.values.len() != other.values.len() {
            assert(self@.len() != other@.len());
            return false;
        }
        let n: usize = self.values.len();
        let mut i: usize = 0;
        while i < n
            invariant
                self.wf(),
                other.wf(),
                n == self@.len(),
                n == other@.len(),
                i <= n,
                forall|j: int| 0 <= j < i ==> self@[j] == other@[j],
            decreases n - i,
        {
            let a = self.get(i);
            let b = other.get(i);
            match (a, b) {
                (Some(x), Some(y)) => {
                    if !x.same(&y) {
                        assert(self@[i as int] != other@[i as int]);
                        return false;
                    }
                },
                (None, None) => {},
                _ => {
                    assert(self@[i as int] != other@[i as int]);
                    return false;
                },
            }
            i = i + 1;
        }
        assert(self@ =~= other@);
        true
    }
}

impl PrimitiveArray<i64> {
    /// Reinterprets the values as timestamps of the given unit and timezone.
    pub fn to_timestamp(self, unit: TimeUnit, tz: Option<String>) -> (r: Self)
        requires
            self.wf(),
        ensures
            r.wf(),
            r@ == self@,
            r.dtype() == TypeTag::Timestamp(unit, opt_text(tz)),
    {
        self.retag(DataType::Timestamp(unit, tz))
    }

    /// Reinterprets the values as times of day of the given unit.
    pub fn to_time64(self, unit: TimeUnit) -> (r: Self)
        requires
            self.wf(),
        ensures
            r.wf(),
            r@ == self@,
            r.dtype() == TypeTag::Time64(unit),
    {
        self.retag(DataType::Time64(unit))
    }
}

impl PrimitiveArray<i32> {
    /// Reinterprets the values as days since the epoch.
    pub fn to_date32(self) -> (r: Self)
        requires
            self.wf(),
        ensures
            r.wf(),
            r@ == self@,
            r.dtype() == TypeTag::Date32,
    {
        self.retag(DataType::Date32)
    }
}

/// Walks the slots of a primitive array, one per call.
pub struct PrimitiveIter<'a, T> {
    pub array: &'a PrimitiveArray<T>,
    pub pos: usize,
}

impl<'a, T: NativeType> PrimitiveIter<'a, T> {
    /// The next slot, or `None` past the last.
    pub fn next(&mut self) -> (r: Option<Option<T>>)
        requires
            old(self).array.wf(),
            old(self).pos <= old(self).array@.len(),
        ensures
            final(self).array == old(self).array,
            r == nth_yield(old(self).array@, old(self).pos as int),
            final(self).pos == if old(self).pos < old(self).array@.len() {
                old(self).pos + 1
            } else {
                old(self).pos as int
            },
    {
        if self.pos < self.array.len() {
            let slot = self.array.get(self.pos);
            self.pos = self.pos + 1;
            Some(slot)
        } else {
            None
        }
    }
}

} // verus!
