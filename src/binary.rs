use vstd::prelude::*;
use vstd::slice::{slice_subrange, slice_to_vec};
use vstd::utf8::{encode_utf8, valid_utf8};

use crate::bitmap::Validity;
use crate::error::Error;

verus! {

broadcast use vstd::utf8::group_utf8_lib;

/// The integer type of the offsets of a variable-length array.
pub trait Offset: Copy + Sized {
    spec fn spec_int(self) -> int;

    /// Largest offset the type can hold.
    spec fn max_int() -> int;

    fn max_usize() -> (r: usize)
        ensures
            r == Self::max_int(),
    ;

    fn from_usize(n: usize) -> (r: Self)
        requires
            n <= Self::max_int(),
        ensures
            r.spec_int() == n,
    ;

    fn to_usize(self) -> (r: usize)
        requires
            0 <= self.spec_int() <= Self::max_int(),
        ensures
            r == self.spec_int(),
    ;

    proof fn lemma_bounds()
        ensures
            0 < Self::max_int() <= i64::MAX,
    ;
}

impl Offset for i32 {
    open spec fn spec_int(self) -> int {
        self as int
    }

    open spec fn max_int() -> int {
        i32::MAX as int
    }

    fn max_usize() -> (r: usize) {
        i32::MAX as usize
    }

    fn from_usize(n: usize) -> (r: i32) {
        n as i32
    }

    fn to_usize(self) -> (r: usize) {
        self as usize
    }

    proof fn lemma_bounds() {
    }
}

impl Offset for i64 {
    open spec fn spec_int(self) -> int {
        self as int
    }

    open spec fn max_int() -> int {
        if usize::MAX < i64::MAX {
            usize::MAX as int
        } else {
            i64::MAX as int
        }
    }

    fn max_usize() -> (r: usize) {
        if (usize::MAX as u64) < (i64::MAX as u64) {
            usize::MAX
        } else {
            i64::MAX as usize
        }
    }

    fn from_usize(n: usize) -> (r: i64) {
        n as i64
    }

    fn to_usize(self) -> (r: usize) {
        self as usize
    }

    proof fn lemma_bounds() {
    }
}

/// Bytes of a slot, or `None` for an absent one.
pub open spec fn opt_bytes(o: Option<Vec<u8>>) -> Option<Seq<u8>> {
    match o {
        Some(v) => Some(v@),
        None => None,
    }
}

/// The UTF-8 bytes of a slot of text, or `None` for an absent one.
pub open spec fn opt_utf8(o: Option<String>) -> Option<Seq<u8>> {
    match o {
        Some(s) => Some(encode_utf8(s@)),
        None => None,
    }
}

pub open spec fn slot_len(o: Option<Seq<u8>>) -> int {
    match o {
        Some(b) => b.len() as int,
        None => 0,
    }
}

/// Sum of the lengths of the present slots: the size of the data buffer.
pub open spec fn total_bytes(s: Seq<Option<Seq<u8>>>) -> int
    decreases s.len(),
{
    if s.len() == 0 {
        0
    } else {
        total_bytes(s.drop_last()) + slot_len(s.last())
    }
}

proof fn lemma_total_step(s: Seq<Option<Seq<u8>>>, i: int)
    requires
        0 <= i < s.len(),
    ensures
        total_bytes(s.subrange(0, i + 1)) == total_bytes(s.subrange(0, i)) + slot_len(s[i]),
{
    assert(s.subrange(0, i + 1).drop_last() =~= s.subrange(0, i));
}

proof fn lemma_total_prefix(s: Seq<Option<Seq<u8>>>, i: int)
    requires
        0 <= i <= s.len(),
    ensures
        0 <= total_bytes(s.subrange(0, i)) <= total_bytes(s),
    decreases s.len(),
{
    if i < s.len() {
        lemma_total_prefix(s.drop_last(), i);
        assert(s.drop_last().subrange(0, i) =~= s.subrange(0, i));
    } else {
        assert(s.subrange(0, i) =~= s);
        if s.len() > 0 {
            lemma_total_prefix(s.drop_last(), s.len() - 1);
            assert(s.drop_last().subrange(0, s.len() - 1) =~= s.drop_last());
        }
    }
}

/// Whether the data of the given slots fits the offsets of `O`.
pub open spec fn fits_offsets<O: Offset>(s: Seq<Option<Seq<u8>>>) -> bool {
    total_bytes(s) <= O::max_int()
}

/// Decides whether slots of the given bytes fit the offsets of `O`.
pub fn fits<O: Offset>(values: &Vec<Option<Vec<u8>>>) -> (r: bool)
    ensures
        r == fits_offsets::<O>(values@.map_values(|o: Option<Vec<u8>>| opt_bytes(o))),
{
    let ghost s = values@.map_values(|o: Option<Vec<u8>>| opt_bytes(o));
    let max: usize = O::max_usize();
    proof {
        O::lemma_bounds();
    }
    let mut total: usize = 0;
    let mut i: usize = 0;
    while i < values.len()
        invariant
            s == values@.map_values(|o: Option<Vec<u8>>| opt_bytes(o)),
            max == O::max_int(),
            max <= i64::MAX,
            i <= values@.len(),
            total == total_bytes(s.subrange(0, i as int)),
            total <= max,
        decreases values@.len() - i,
    {
        proof {
            lemma_total_step(s, i as int);
        }
        let n: usize = match &values[i] {
            Some(b) => b.len(),
            None => 0,
        };
        if n > max - total {
            proof {
                lemma_total_prefix(s, i + 1);
            }
            return false;
        }
        total = total + n;
        i = i + 1;
    }
    assert(s.subrange(0, values@.len() as int) =~= s);
    true
}

fn append_bytes(data: &mut Vec<u8>, b: &[u8])
    ensures
        final(data)@ == old(data)@ + b@,
{
    let mut i: usize = 0;
    while i < b.len()
        invariant
            i <= b@.len(),
            data@ == old(data)@ + b@.subrange(0, i as int),
        decreases b@.len() - i,
    {
        data.push(b[i]);
        i = i + 1;
        assert(data@ =~= old(data)@ + b@.subrange(0, i as int));
    }
    assert(b@.subrange(0, b@.len() as int) =~= b@);
}

/// An immutable array of byte strings, each slot present or null, stored as
/// one data buffer cut by offsets.
#[derive(Debug)]
pub struct BinaryArray<O> {
    offsets: Vec<O>,
    data: Vec<u8>,
    validity: Validity,
}

impl<O: Offset> View for BinaryArray<O> {
    type V = Seq<Option<Seq<u8>>>;

    closed spec fn view(&self) -> Seq<Option<Seq<u8>>> {
        Seq::new(
            (self.offsets@.len() - 1) as nat,
            |i: int|
                if self.validity.valid_at(i) {
                    Some(
                        self.data@.subrange(
                            self.offsets@[i].spec_int(),
                            self.offsets@[i + 1].spec_int(),
                        ),
                    )
                } else {
                    None
                },
        )
    }
}

pub type BinaryArray32 = BinaryArray<i32>;

pub type LargeBinaryArray = BinaryArray<i64>;

impl<O: Offset> BinaryArray<O> {
    /// Offsets start at zero, never decrease, and end at the data's length,
    /// which the offset type can hold; the validity fits the slots.
    pub closed spec fn wf(&self) -> bool {
        &&& self.offsets@.len() >= 1
        &&& self.offsets@[0].spec_int() == 0
        &&& self.offsets@.last().spec_int() == self.data@.len()
        &&& self.data@.len() <= O::max_int()
        &&& forall|k: int|
            0 <= k < self.offsets@.len() ==> 0 <= #[trigger] self.offsets@[k].spec_int()
                <= self.data@.len()
        &&& forall|k: int|
            0 <= k < self.offsets@.len() - 1 ==> #[trigger] self.offsets@[k].spec_int()
                <= self.offsets@[k + 1].spec_int()
        &&& self.validity.wf_for((self.offsets@.len() - 1) as nat)
    }

    /// Whether the array carries a validity bitmap.
    pub closed spec fn has_bitmap(&self) -> bool {
        self.validity is Bitmap
    }

    fn build(values: &Vec<Option<Vec<u8>>>, validity: Validity) -> (r: Self)
        requires
            fits_offsets::<O>(values@.map_values(|o: Option<Vec<u8>>| opt_bytes(o))),
            validity.wf_for(values@.len()),
            forall|i: int|
                0 <= i < values@.len() ==> validity.valid_at(i) == (values@[i] is Some),
        ensures
            r.wf(),
            r@ == values@.map_values(|o: Option<Vec<u8>>| opt_bytes(o)),
            r.validity == validity,
    {
        let ghost s = values@.map_values(|o: Option<Vec<u8>>| opt_bytes(o));
        let mut offsets: Vec<O> = Vec::new();
        let mut data: Vec<u8> = Vec::new();
        proof {
            O::lemma_bounds();
        }
        offsets.push(O::from_usize(0));
        let mut i: usize = 0;
        while i < values.len()
            invariant
                s == values@.map_values(|o: Option<Vec<u8>>| opt_bytes(o)),
                fits_offsets::<O>(s),
                i <= values@.len(),
                offsets@.len() == i + 1,
                offsets@[0].spec_int() == 0,
                offsets@.last().spec_int() == data@.len(),
                data@.len() == total_bytes(s.subrange(0, i as int)),
                forall|k: int|
                    0 <= k < offsets@.len() ==> 0 <= #[trigger] offsets@[k].spec_int()
                        <= data@.len(),
                forall|k: int|
                    0 <= k < i ==> #[trigger] offsets@[k].spec_int() <= offsets@[k + 1].spec_int(),
                forall|k: int|
                    0 <= k < i && (#[trigger] s[k]) is Some ==> data@.subrange(
                        offsets@[k].spec_int(),
                        offsets@[k + 1].spec_int(),
                    ) == s[k]->0,
            decreases values@.len() - i,
        {
            proof {
                lemma_total_step(s, i as int);
                lemma_total_prefix(s, i + 1);
            }
            let ghost old_data = data@;
            let ghost old_offsets = offsets@;
            match &values[i] {
                Some(b) => append_bytes(&mut data, b.as_slice()),
                None => {},
            }
            offsets.push(O::from_usize(data.len()));
            proof {
                assert forall|k: int|
                    0 <= k < i + 1 && (#[trigger] s[k]) is Some implies data@.subrange(
                    offsets@[k].spec_int(),
                    offsets@[k + 1].spec_int(),
                ) == s[k]->0 by {
                    if k < i {
                        assert(offsets@[k] == old_offsets[k]);
                        assert(offsets@[k + 1] == old_offsets[k + 1]);
                        assert(data@.subrange(offsets@[k].spec_int(), offsets@[k + 1].spec_int())
                            =~= old_data.subrange(
                            offsets@[k].spec_int(),
                            offsets@[k + 1].spec_int(),
                        ));
                    } else {
                        assert(data@.subrange(offsets@[k].spec_int(), offsets@[k + 1].spec_int())
                            =~= s[k]->0);
                    }
                }
            }
            i = i + 1;
        }
        assert(s.subrange(0, values@.len() as int) =~= s);
        let r = BinaryArray { offsets, data, validity };
        assert(r@ =~= s);
        r
    }

    /// An array of optional byte strings; absent entries are null, and marked
    /// so in a validity bitmap.
    pub fn from_options(values: &Vec<Option<Vec<u8>>>) -> (r: Self)
        requires
            fits_offsets::<O>(values@.map_values(|o: Option<Vec<u8>>| opt_bytes(o))),
        ensures
            r.wf(),
            r@ == values@.map_values(|o: Option<Vec<u8>>| opt_bytes(o)),
            r.has_bitmap(),
    {
        let validity = Validity::of_options(values);
        Self::build(values, validity)
    }

    /// An array of present byte strings, without a validity bitmap.
    pub fn from_vec(values: Vec<Vec<u8>>) -> (r: Self)
        requires
            fits_offsets::<O>(values@.map_values(|v: Vec<u8>| Some(v@))),
        ensures
            r.wf(),
            r@ == values@.map_values(|v: Vec<u8>| Some(v@)),
            !r.has_bitmap(),
    {
        let mut slots: Vec<Option<Vec<u8>>> = Vec::new();
        let mut i: usize = 0;
        while i < values.len()
            invariant
                i <= values@.len(),
                slots@.len() == i,
                forall|k: int| 0 <= k < i ==> opt_bytes(#[trigger] slots@[k]) == Some(values@[k]@),
            decreases values@.len() - i,
        {
            slots.push(Some(slice_to_vec(values[i].as_slice())));
            i = i + 1;
        }
        assert(slots@.map_values(|o: Option<Vec<u8>>| opt_bytes(o)) =~= values@.map_values(
            |v: Vec<u8>| Some(v@),
        ));
        Self::build(&slots, Validity::NoNulls)
    }

    /// Number of slots.
    pub fn len(&self) -> (r: usize)
        requires
            self.wf(),
        ensures
            r == self@.len(),
    {
        self.offsets.len() - 1
    }

    /// Whether slot `i` holds a value.
    pub fn is_valid(&self, i: usize) -> (r: bool)
        requires
            self.wf(),
            i < self@.len(),
        ensures
            r == (self@[i as int] is Some),
    {
        self.validity.is_valid(i, self.offsets.len() - 1)
    }

    /// The bytes that slot `i` spans; for a null slot these are no real data.
    pub fn value(&self, i: usize) -> (r: Vec<u8>)
        requires
            self.wf(),
            i < self@.len(),
        ensures
            self@[i as int] is Some ==> self@[i as int] == Some(r@),
    {
        let n: usize = self.offsets.len();
        assert(i + 1 < n);
        let start: usize = self.offsets[i].to_usize();
        let end: usize = self.offsets[i + 1].to_usize();
        slice_to_vec(slice_subrange(self.data.as_slice(), start, end))
    }

    /// Slot `i`: its bytes, or `None` where it is null.
    pub fn get(&self, i: usize) -> (r: Option<Vec<u8>>)
        requires
            self.wf(),
            i < self@.len(),
        ensures
            opt_bytes(r) == self@[i as int],
    {
        if self.is_valid(i) {
            Some(self.value(i))
        } else {
            None
        }
    }

    /// All slots in order.
    pub fn to_options(&self) -> (r: Vec<Option<Vec<u8>>>)
        requires
            self.wf(),
        ensures
            r@.map_values(|o: Option<Vec<u8>>| opt_bytes(o)) == self@,
    {
        let n: usize = self.len();
        let mut out: Vec<Option<Vec<u8>>> = Vec::new();
        let mut i: usize = 0;
        while i < n
            invariant
                self.wf(),
                n == self@.len(),
                i <= n,
                out@.len() == i,
                forall|k: int| 0 <= k < i ==> opt_bytes(#[trigger] out@[k]) == self@[k],
            decreases n - i,
        {
            out.push(self.get(i));
            i = i + 1;
        }
        assert(out@.map_values(|o: Option<Vec<u8>>| opt_bytes(o)) =~= self@);
        out
    }

    /// The offsets and data buffers: present slot `i` is the data between
    /// offsets `i` and `i + 1`.
    pub fn buffers(&self) -> (r: (&Vec<O>, &Vec<u8>))
        requires
            self.wf(),
        ensures
            r.0@.len() == self@.len() + 1,
            r.0@[0].spec_int() == 0,
            r.0@.last().spec_int() == r.1@.len(),
            forall|i: int|
                0 <= i < self@.len() ==> 0 <= #[trigger] r.0@[i].spec_int() <= r.0@[i + 1].spec_int()
                    <= r.1@.len(),
            forall|i: int|
                0 <= i < self@.len() && (#[trigger] self@[i]) is Some ==> self@[i]->0
                    == r.1@.subrange(r.0@[i].spec_int(), r.0@[i + 1].spec_int()),
    {
        (&self.offsets, &self.data)
    }

    /// The validity of the slots.
    pub fn validity(&self) -> (r: &Validity)
        requires
            self.wf(),
        ensures
            r.wf_for(self@.len()),
            r is Bitmap == self.has_bitmap(),
            forall|i: int| 0 <= i < self@.len() ==> r.valid_at(i) == (self@[i] is Some),
    {
        &self.validity
    }

    /// Equal slots: a null's raw content does not count.
    pub fn equals(&self, other: &Self) -> (r: bool)
        requires
            self.wf(),
            other.wf(),
        ensures
            r == (self@ == other@),
    {
        let n: usize = self.len();
        if n != other.len() {
            assert(self@.len() != other@.len());
            return false;
        }
        let mut i: usize = 0;
        while i < n
            invariant
                self.wf(),
                other.wf(),
                n == self@.len(),
                n == other@.len(),
                i <= n,
                forall|j: int| 0 <= j < i ==> self@[j] == other@[j],
            decreases n - i,
        {
            let a = self.get(i);
            let b = other.get(i);
            let same = match (&a, &b) {
                (Some(x), Some(y)) => bytes_equal(x, y),
                (None, None) => true,
                _ => false,
            };
            if !same {
                assert(self@[i as int] != other@[i as int]);
                return false;
            }
            i = i + 1;
        }
        assert(self@ =~= other@);
        true
    }
}

fn bytes_equal(a: &Vec<u8>, b: &Vec<u8>) -> (r: bool)
    ensures
        r == (a@ == b@),
{
    if a.len() != b.len() {
        return false;
    }
    let mut i: usize = 0;
    while i < a.len()
        invariant
            a@.len() == b@.len(),
            i <= a@.len(),
            forall|j: int| 0 <= j < i ==> a@[j] == b@[j],
        decreases a@.len() - i,
    {
        if a[i] != b[i] {
            return false;
        }
        i = i + 1;
    }
    assert(a@ =~= b@);
    true
}

/// Relies on std's `String::from_utf8`: it succeeds exactly on well-formed
/// UTF-8, and the text it returns encodes to the same bytes.
#[verifier::external_body]
fn decode_text(bytes: Vec<u8>) -> (r: Option<String>)
    ensures
        r is Some == valid_utf8(bytes@),
        r is Some ==> encode_utf8(r->0@) == bytes@,
{
    String::from_utf8(bytes).ok()
}

/// An immutable array of UTF-8 text, each slot present or null.
#[derive(Debug)]
pub struct Utf8Array<O> {
    inner: BinaryArray<O>,
}

pub type StringArray = Utf8Array<i32>;

pub type LargeStringArray = Utf8Array<i64>;

impl<O: Offset> View for Utf8Array<O> {
    type V = Seq<Option<Seq<u8>>>;

    closed spec fn view(&self) -> Seq<Option<Seq<u8>>> {
        self.inner@
    }
}

/// The bytes of each present slot are well-formed UTF-8.
pub open spec fn all_utf8(s: Seq<Option<Seq<u8>>>) -> bool {
    forall|i: int| 0 <= i < s.len() && (#[trigger] s[i]) is Some ==> valid_utf8(s[i]->0)
}

impl<O: Offset> Utf8Array<O> {
    /// The buffers are well formed and every present slot is valid UTF-8.
    pub closed spec fn wf(&self) -> bool {
        self.inner.wf() && all_utf8(self.inner@)
    }

    /// Whether the array carries a validity bitmap.
    pub closed spec fn has_bitmap(&self) -> bool {
        self.inner.has_bitmap()
    }

    /// Decides whether the given text fits the offsets of `O`.
    pub fn fits_text(values: &Vec<Option<String>>) -> (r: bool)
        ensures
            r == fits_offsets::<O>(values@.map_values(|o: Option<String>| opt_utf8(o))),
    {
        let bytes = text_bytes(values);
        proof {
            assert(bytes@.map_values(|o: Option<Vec<u8>>| opt_bytes(o)) =~= values@.map_values(
                |o: Option<String>| opt_utf8(o),
            ));
        }
        fits::<O>(&bytes)
    }

    /// An array of optional text; absent entries are null.
    pub fn from_options(values: &Vec<Option<String>>) -> (r: Self)
        requires
            fits_offsets::<O>(values@.map_values(|o: Option<String>| opt_utf8(o))),
        ensures
            r.wf(),
            r@ == values@.map_values(|o: Option<String>| opt_utf8(o)),
            r.has_bitmap(),
    {
        let bytes = text_bytes(values);
        assert(bytes@.map_values(|o: Option<Vec<u8>>| opt_bytes(o)) =~= values@.map_values(
            |o: Option<String>| opt_utf8(o),
        ));
        let inner = BinaryArray::from_options(&bytes);
        Utf8Array { inner }
    }

    /// An array of present text, without a validity bitmap.
    pub fn from_vec(values: Vec<String>) -> (r: Self)
        requires
            fits_offsets::<O>(values@.map_values(|s: String| Some(encode_utf8(s@)))),
        ensures
            r.wf(),
            r@ == values@.map_values(|s: String| Some(encode_utf8(s@))),
            !r.has_bitmap(),
    {
        let mut bytes: Vec<Vec<u8>> = Vec::new();
        let mut i: usize = 0;
        while i < values.len()
            invariant
                i <= values@.len(),
                bytes@.len() == i,
                forall|k: int| 0 <= k < i ==> (#[trigger] bytes@[k])@ == encode_utf8(values@[k]@),
            decreases values@.len() - i,
        {
            bytes.push(slice_to_vec(values[i].as_str().as_bytes()));
            i = i + 1;
        }
        assert(bytes@.map_values(|v: Vec<u8>| Some(v@)) =~= values@.map_values(
            |s: String| Some(encode_utf8(s@)),
        ));
        let inner = BinaryArray::from_vec(bytes);
        Utf8Array { inner }
    }

    /// An array of optional byte strings read as text: `Error::Format` exactly
    /// when a present entry is not well-formed UTF-8.
    pub fn from_utf8_options(values: &Vec<Option<Vec<u8>>>) -> (r: Result<Self, Error>)
        requires
            fits_offsets::<O>(values@.map_values(|o: Option<Vec<u8>>| opt_bytes(o))),
        ensures
            r is Ok == all_utf8(values@.map_values(|o: Option<Vec<u8>>| opt_bytes(o))),
            r matches Ok(a) ==> a.wf() && a@ == values@.map_values(
                |o: Option<Vec<u8>>| opt_bytes(o),
            ),
            r matches Err(e) ==> e is Format,
    {
        let ghost s = values@.map_values(|o: Option<Vec<u8>>| opt_bytes(o));
        let mut i: usize = 0;
        while i < values.len()
            invariant
                s == values@.map_values(|o: Option<Vec<u8>>| opt_bytes(o)),
                i <= values@.len(),
                forall|k: int| 0 <= k < i && (#[trigger] s[k]) is Some ==> valid_utf8(s[k]->0),
            decreases values@.len() - i,
        {
            match &values[i] {
                Some(b) => {
                    if decode_text(slice_to_vec(b.as_slice())).is_none() {
                        assert(s[i as int] == Some(b@));
                        assert(!all_utf8(s));
                        return Err(Error::Format("invalid UTF-8 in text value".to_string()));
                    }
                },
                None => {},
            }
            i = i + 1;
        }
        let inner = BinaryArray::from_options(values);
        Ok(Utf8Array { inner })
    }

    /// Number of slots.
    pub fn len(&self) -> (r: usize)
        requires
            self.wf(),
        ensures
            r == self@.len(),
    {
        self.inner.len()
    }

    /// Whether slot `i` holds a value.
    pub fn is_valid(&self, i: usize) -> (r: bool)
        requires
            self.wf(),
            i < self@.len(),
        ensures
            r == (self@[i as int] is Some),
    {
        self.inner.is_valid(i)
    }

    /// The UTF-8 bytes of slot `i`; for a null slot these are no real data.
    pub fn value(&self, i: usize) -> (r: Vec<u8>)
        requires
            self.wf(),
            i < self@.len(),
        ensures
            self@[i as int] is Some ==> self@[i as int] == Some(r@),
    {
        self.inner.value(i)
    }

    /// Slot `i` as text, or `None` where it is null.
    pub fn get(&self, i: usize) -> (r: Option<String>)
        requires
            self.wf(),
            i < self@.len(),
        ensures
            opt_utf8(r) == self@[i as int],
    {
        if self.inner.is_valid(i) {
            decode_text(self.inner.value(i))
        } else {
            None
        }
    }

    /// The underlying offsets, data and validity.
    pub fn as_binary(&self) -> (r: &BinaryArray<O>)
        requires
            self.wf(),
        ensures
            r.wf(),
            r@ == self@,
            r.has_bitmap() == self.has_bitmap(),
    {
        &self.inner
    }

    /// Equal slots: a null's raw content does not count.
    pub fn equals(&self, other: &Self) -> (r: bool)
        requires
            self.wf(),
            other.wf(),
        ensures
            r == (self@ == other@),
    {
        self.inner.equals(&other.inner)
    }
}

fn text_bytes(values: &Vec<Option<String>>) -> (r: Vec<Option<Vec<u8>>>)
    ensures
        r@.len() == values@.len(),
        forall|k: int| 0 <= k < values@.len() ==> opt_bytes(#[trigger] r@[k]) == opt_utf8(values@[k]),
{
    let mut out: Vec<Option<Vec<u8>>> = Vec::new();
    let mut i: usize = 0;
    while i < values.len()
        invariant
            i <= values@.len(),
            out@.len() == i,
            forall|k: int| 0 <= k < i ==> opt_bytes(#[trigger] out@[k]) == opt_utf8(values@[k]),
        decreases values@.len() - i,
    {
        match &values[i] {
            Some(s) => out.push(Some(slice_to_vec(s.as_str().as_bytes()))),
            None => out.push(None),
        }
        i = i + 1;
    }
    out
}

} // verus!
