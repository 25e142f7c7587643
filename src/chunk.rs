use vstd::prelude::*;

use crate::dispatch::{from_generic, host_cells, resolved, ArrayRef, HostValue};
use crate::error::Error;

verus! {

/// All arrays of the sequence have the same number of slots.
pub open spec fn same_lengths(s: Seq<ArrayRef>) -> bool {
    forall|i: int, j: int|
        0 <= i < s.len() && 0 <= j < s.len() ==> (#[trigger] s[i]).cells().len() == (
        #[trigger] s[j]).cells().len()
}

/// Every array of the sequence is well formed.
pub open spec fn all_wf(s: Seq<ArrayRef>) -> bool {
    forall|i: int| 0 <= i < s.len() ==> (#[trigger] s[i]).wf()
}

/// The row count of equal-length arrays: zero when there are none.
pub open spec fn row_count(s: Seq<ArrayRef>) -> nat {
    if s.len() == 0 {
        0
    } else {
        s[0].cells().len()
    }
}

/// Every host value resolves to a variant, and they all describe the same
/// number of slots.
pub open spec fn host_chunk_ok(s: Seq<HostValue>) -> bool {
    &&& forall|i: int| 0 <= i < s.len() ==> (#[trigger] resolved(s[i])) is Some
    &&& forall|i: int, j: int|
        0 <= i < s.len() && 0 <= j < s.len() ==> host_cells(#[trigger] s[i]).len() == host_cells(
            #[trigger] s[j],
        ).len()
}

/// An ordered collection of equal-length arrays: the unit of reading and writing.
#[derive(Debug)]
pub struct Chunk {
    arrays: Vec<ArrayRef>,
}

impl View for Chunk {
    type V = Seq<ArrayRef>;

    closed spec fn view(&self) -> Seq<ArrayRef> {
        self.arrays@
    }
}

impl Chunk {
    /// The arrays are well formed and of one length.
    pub closed spec fn wf(&self) -> bool {
        all_wf(self.arrays@) && same_lengths(self.arrays@)
    }

    /// A chunk of the given arrays; `LengthMismatch` unless they all have the
    /// same length.
    pub fn new(arrays: Vec<ArrayRef>) -> (r: Result<Chunk, Error>)
        requires
            all_wf(arrays@),
        ensures
            r is Ok == same_lengths(arrays@),
            r matches Ok(c) ==> c.wf() && c@ == arrays@,
            r matches Err(e) ==> e is LengthMismatch,
    {
        if arrays.len() > 0 {
            let n: usize = arrays[0].len();
            let mut i: usize = 1;
            while i < arrays.len()
                invariant
                    all_wf(arrays@),
                    arrays@.len() > 0,
                    n == arrays@[0].cells().len(),
                    1 <= i <= arrays@.len(),
                    forall|k: int| 0 <= k < i ==> (#[trigger] arrays@[k]).cells().len() == n,
                decreases arrays@.len() - i,
            {
                if arrays[i].len() != n {
                    assert(!same_lengths(arrays@)) by {
                        assert(arrays@[i as int].cells().len() != arrays@[0].cells().len());
                    }
                    return Err(Error::LengthMismatch);
                }
                i = i + 1;
            }
            assert(same_lengths(arrays@)) by {
                assert forall|a: int, b: int|
                    0 <= a < arrays@.len() && 0 <= b < arrays@.len() implies (
                    #[trigger] arrays@[a]).cells().len() == (#[trigger] arrays@[b]).cells().len() by {
                    assert(arrays@[a].cells().len() == n);
                    assert(arrays@[b].cells().len() == n);
                }
            }
        }
        Ok(Chunk { arrays })
    }

    /// A chunk of the arrays that host values resolve to: `UnsupportedType`
    /// when one resolves to none, else as `new`.
    pub fn from_host(values: Vec<HostValue>) -> (r: Result<Chunk, Error>)
        requires
            forall|i: int| 0 <= i < values@.len() ==> (#[trigger] values@[i]).wf(),
        ensures
            r is Ok == host_chunk_ok(values@),
            (exists|i: int| 0 <= i < values@.len() && (#[trigger] resolved(values@[i])) is None)
                ==> r matches Err(Error::UnsupportedType),
            (forall|i: int| 0 <= i < values@.len() ==> (#[trigger] resolved(values@[i])) is Some)
                ==> (r is Err ==> r->Err_0 is LengthMismatch),
            r matches Ok(c) ==> c.wf() && c@.len() == values@.len() && forall|i: int|
                0 <= i < values@.len() ==> Some((#[trigger] c@[i]).physical()) == resolved(
                    values@[i],
                ) && c@[i].cells() == host_cells(values@[i]),
    {
        let ghost input = values@;
        let mut arrays: Vec<ArrayRef> = Vec::new();
        let mut rest = values;
        let mut failed: bool = false;
        let mut i: usize = 0;
        let n: usize = rest.len();
        assert(rest@ =~= input.subrange(0, n as int));
        while i < n
            invariant
                n == input.len(),
                i <= n,
                rest@ == input.subrange(i as int, n as int),
                forall|k: int| 0 <= k < n ==> (#[trigger] input[k]).wf(),
                !failed ==> arrays@.len() == i,
                !failed ==> all_wf(arrays@),
                !failed ==> forall|k: int|
                    0 <= k < i ==> Some((#[trigger] arrays@[k]).physical()) == resolved(input[k])
                        && arrays@[k].cells() == host_cells(input[k]),
                failed ==> exists|k: int| 0 <= k < n && (#[trigger] resolved(input[k])) is None,
            decreases n - i,
        {
            let v = rest.remove(0);
            assert(v == input[i as int]);
            if !failed {
                match from_generic(v) {
                    Ok(a) => arrays.push(a),
                    Err(_) => {
                        assert(resolved(input[i as int]) is None);
                        failed = true;
                    },
                }
            }
            i = i + 1;
            assert(rest@ =~= input.subrange(i as int, n as int));
        }
        if failed {
            return Err(Error::UnsupportedType);
        }
        assert forall|k: int| 0 <= k < n implies (#[trigger] resolved(input[k])) is Some by {
            assert(Some(arrays@[k].physical()) == resolved(input[k]));
        }
        assert(same_lengths(arrays@) == host_chunk_ok(input)) by {
            assert forall|a: int, b: int| 0 <= a < n && 0 <= b < n implies
                ((#[trigger] arrays@[a]).cells().len() == (#[trigger] arrays@[b]).cells().len())
                == (host_cells(input[a]).len() == host_cells(input[b]).len()) by {
                assert(arrays@[a].cells() == host_cells(input[a]));
                assert(arrays@[b].cells() == host_cells(input[b]));
            }
            if host_chunk_ok(input) {
                assert forall|a: int, b: int| 0 <= a < n && 0 <= b < n implies
                    (#[trigger] arrays@[a]).cells().len() == (#[trigger] arrays@[b]).cells().len() by {
                    assert(host_cells(input[a]).len() == host_cells(input[b]).len());
                }
            }
            if same_lengths(arrays@) {
                assert forall|a: int, b: int| 0 <= a < n && 0 <= b < n implies host_cells(
                    #[trigger] input[a],
                ).len() == host_cells(#[trigger] input[b]).len() by {
                    assert(arrays@[a].cells().len() == arrays@[b].cells().len());
                }
            }
        }
        Chunk::new(arrays)
    }

    /// The shared row count; zero for a chunk without arrays.
    pub fn len(&self) -> (r: usize)
        requires
            self.wf(),
        ensures
            r == row_count(self@),
    {
        if self.arrays.len() == 0 {
            0
        } else {
            self.arrays[0].len()
        }
    }

    /// The arrays, in order.
    pub fn arrays(&self) -> (r: &Vec<ArrayRef>)
        ensures
            r@ == self@,
    {
        &self.arrays
    }

    /// The arrays, in order, taken out of the chunk.
    pub fn into_arrays(self) -> (r: Vec<ArrayRef>)
        ensures
            r@ == self@,
    {
        self.arrays
    }

    /// Pairwise equal arrays.
    pub fn equals(&self, other: &Chunk) -> (r: bool)
        requires
            self.wf(),
            other.wf(),
        ensures
            r == (self@.len() == other@.len() && forall|i: int|
                0 <= i < self@.len() ==> {
                    let a = #[trigger] self@[i];
                    let b = other@[i];
                    a.physical() == b.physical() && a.dtype() == b.dtype() && a.cells()
                        == b.cells()
                }),
    {
        if self.arrays.len() != other.arrays.len() {
            return false;
        }
        let mut i: usize = 0;
        while i < self.arrays.len()
            invariant
                self.wf(),
                other.wf(),
                self@.len() == other@.len(),
                i <= self@.len(),
                forall|k: int|
                    0 <= k < i ==> {
                        let a = #[trigger] self@[k];
                        let b = other@[k];
                        a.physical() == b.physical() && a.dtype() == b.dtype() && a.cells()
                            == b.cells()
                    },
            decreases self@.len() - i,
        {
            if !self.arrays[i].equals(&other.arrays[i]) {
                return false;
            }
            i = i + 1;
        }
        true
    }
}

} // verus!
