use vstd::prelude::*;

use crate::bitmap::{Bitmap, Validity};
use crate::primitive::nth_yield;

verus! {

/// An immutable array of booleans, each slot present or null; the values are
/// bit-packed like the validity.
#[derive(Debug)]
pub struct BooleanArray {
    values: Bitmap,
    validity: Validity,
}

impl View for BooleanArray {
    type V = Seq<Option<bool>>;

    closed spec fn view(&self) -> Seq<Option<bool>> {
        Seq::new(
            self.values@.len(),
            |i: int|
                if self.validity.valid_at(i) {
                    Some(self.values@[i])
                } else {
                    None
                },
        )
    }
}

impl BooleanArray {
    /// Both bitmaps are well formed and of the same length.
    pub closed spec fn wf(&self) -> bool {
        self.values.wf() && self.validity.wf_for(self.values@.len())
    }

    /// Whether the array carries a validity bitmap.
    pub closed spec fn has_bitmap(&self) -> bool {
        self.validity is Bitmap
    }

    /// An array of present values, without a validity bitmap.
    pub fn from_vec(values: Vec<bool>) -> (r: BooleanArray)
        ensures
            r.wf(),
            r@ == values@.map_values(|b: bool| Some(b)),
            !r.has_bitmap(),
    {
        let r = BooleanArray { values: Bitmap::from_bools(&values), validity: Validity::NoNulls };
        assert(r@ =~= values@.map_values(|b: bool| Some(b)));
        r
    }

    /// An array of optional values; absent entries are null, and marked so in
    /// a validity bitmap.
    pub fn from_options(values: Vec<Option<bool>>) -> (r: BooleanArray)
        ensures
            r.wf(),
            r@ == values@,
            r.has_bitmap(),
    {
        let validity = Validity::of_options(&values);
        let mut flags: Vec<bool> = Vec::new();
        let mut i: usize = 0;
        while i < values.len()
            invariant
                i <= values@.len(),
                flags@.len() == i,
                forall|k: int|
                    0 <= k < i && (#[trigger] values@[k]) is Some ==> flags@[k] == values@[k]->0,
            decreases values@.len() - i,
        {
            match values[i] {
                Some(b) => flags.push(b),
                None => flags.push(false),
            }
            i = i + 1;
        }
        let r = BooleanArray { values: Bitmap::from_bools(&flags), validity };
        assert(r@ =~= values@);
        r
    }

    /// Number of slots.
    pub fn len(&self) -> (r: usize)
        ensures
            r == self@.len(),
    {
        self.values.len()
    }

    /// Whether slot `i` holds a value.
    pub fn is_valid(&self, i: usize) -> (r: bool)
        requires
            self.wf(),
            i < self@.len(),
        ensures
            r == (self@[i as int] is Some),
    {
        self.validity.is_valid(i, self.values.len())
    }

    /// The raw content of slot `i`; for a null slot this is no real data.
    pub fn value(&self, i: usize) -> (r: bool)
        requires
            self.wf(),
            i < self@.len(),
        ensures
            self@[i as int] is Some ==> self@[i as int] == Some(r),
    {
        self.values.get(i)
    }

    /// Slot `i`: its value, or `None` where it is null.
    pub fn get(&self, i: usize) -> (r: Option<bool>)
        requires
            self.wf(),
            i < self@.len(),
        ensures
            r == self@[i as int],
    {
        if self.is_valid(i) {
            Some(self.values.get(i))
        } else {
            None
        }
    }

    /// The bit-packed values, null slots included.
    pub fn values(&self) -> (r: &Bitmap)
        requires
            self.wf(),
        ensures
            r.wf(),
            r@.len() == self@.len(),
            forall|i: int| 0 <= i < self@.len() && self@[i] is Some ==> self@[i] == Some(#[trigger] r@[i]),
    {
        &self.values
    }

    /// The validity of the slots.
    pub fn validity(&self) -> (r: &Validity)
        requires
            self.wf(),
        ensures
            r.wf_for(self@.len()),
            r is Bitmap == self.has_bitmap(),
            forall|i: int| 0 <= i < self@.len() ==> r.valid_at(i) == (self@[i] is Some),
    {
        &self.validity
    }

    /// All slots in order, as optional values.
    pub fn to_options(&self) -> (r: Vec<Option<bool>>)
        requires
            self.wf(),
        ensures
            r@ == self@,
    {
        let mut it = BooleanIterator::new(self);
        let mut out: Vec<Option<bool>> = Vec::new();
        loop
            invariant
                it.array == self,
                self.wf(),
                it.pos <= self@.len(),
                out@ == self@.subrange(0, it.pos as int),
            ensures
                out@ == self@,
            decreases self@.len() - it.pos,
        {
            match it.next() {
                Some(slot) => out.push(slot),
                None => {
                    assert(out@ =~= self@);
                    break;
                },
            }
        }
        out
    }

    /// Equal slots: a null's raw content does not count.
    pub fn equals(&self, other: &BooleanArray) -> (r: bool)
        requires
            self.wf(),
            other.wf(),
        ensures
            r == (self@ == other@),
    {
        let n: usize = self.len();
        if n != other.len() {
            assert(self@.len() != other@.len());
            return false;
        }
        let mut i: usize = 0;
        while i < n
            invariant
                self.wf(),
                other.wf(),
                n == self@.len(),
                n == other@.len(),
                i <= n,
                forall|j: int| 0 <= j < i ==> self@[j] == other@[j],
            decreases n - i,
        {
            if self.get(i) != other.get(i) {
                return false;
            }
            i = i + 1;
        }
        assert(self@ =~= other@);
        true
    }
}

/// Walks the slots of a boolean array, one per call.
pub struct BooleanIterator<'a> {
    pub array: &'a BooleanArray,
    pub pos: usize,
}

impl<'a> BooleanIterator<'a> {
    /// A fresh iterator, at the first slot.
    pub fn new(array: &'a BooleanArray) -> (r: BooleanIterator<'a>)
        ensures
            r.array == array,
            r.pos == 0,
    {
        BooleanIterator { array, pos: 0 }
    }

    /// The next slot, or `None` past the last.
    pub fn next(&mut self) -> (r: Option<Option<bool>>)
        requires
            old(self).array.wf(),
            old(self).pos <= old(self).array@.len(),
        ensures
            final(self).array == old(self).array,
            r == nth_yield(old(self).array@, old(self).pos as int),
            final(self).pos == if old(self).pos < old(self).array@.len() {
                old(self).pos + 1
            } else {
                old(self).pos as int
            },
    {
        if self.pos < self.array.len() {
            let slot = self.array.get(self.pos);
            self.pos = self.pos + 1;
            Some(slot)
        } else {
            None
        }
    }
}

} // verus!
