use vstd::prelude::*;

verus! {

/// Bit `k` of `b`, counting from the least significant bit.
pub open spec fn bit_at(b: u8, k: u8) -> bool {
    (b >> k) & 1u8 == 1u8
}

proof fn lemma_bit_of_zero(k: u8)
    requires
        k < 8,
    ensures
        !bit_at(0u8, k),
{
    assert(((0u8 >> k) & 1u8 == 1u8) == false) by (bit_vector)
        requires
            k < 8,
    ;
}

proof fn lemma_bit_after_set(b: u8, k: u8, j: u8)
    requires
        k < 8,
        j < 8,
    ensures
        bit_at(b | (1u8 << k), j) == (bit_at(b, j) || j == k),
{
    assert((((b | (1u8 << k)) >> j) & 1u8 == 1u8) == (((b >> j) & 1u8 == 1u8) || j == k))
        by (bit_vector)
        requires
            k < 8,
            j < 8,
    ;
}

/// A packed sequence of bits: element `i` is bit `i % 8` of byte `i / 8`,
/// least significant bit first.
#[derive(Clone, Debug)]
pub struct Bitmap {
    bytes: Vec<u8>,
    len: usize,
}

impl View for Bitmap {
    type V = Seq<bool>;

    closed spec fn view(&self) -> Seq<bool> {
        Seq::new(self.len as nat, |i: int| bit_at(self.bytes@[i / 8], (i % 8) as u8))
    }
}

impl Bitmap {
    /// The byte buffer holds exactly the bytes that the bits need.
    pub closed spec fn wf(&self) -> bool {
        self.bytes@.len() == (self.len + 7) / 8
    }

    /// Packs a sequence of flags.
    pub fn from_bools(flags: &Vec<bool>) -> (r: Bitmap)
        ensures
            r.wf(),
            r@ == flags@,
    {
        let n: usize = flags.len();
        let nbytes: usize = n / 8 + if n % 8 == 0 {
            0
        } else {
            1
        };
        let mut bytes: Vec<u8> = Vec::new();
        while bytes.len() < nbytes
            invariant
                bytes@.len() <= nbytes,
                forall|j: int| 0 <= j < bytes@.len() ==> bytes@[j] == 0u8,
            decreases nbytes - bytes@.len(),
        {
            bytes.push(0u8);
        }
        assert forall|j: int| 0 <= j < n implies !#[trigger] bit_at(
            bytes@[j / 8],
            (j % 8) as u8,
        ) by {
            lemma_bit_of_zero((j % 8) as u8);
        }
        let mut i: usize = 0;
        while i < n
            invariant
                n == flags@.len(),
                nbytes == (n + 7) / 8,
                bytes@.len() == nbytes,
                i <= n,
                forall|j: int|
                    0 <= j < n ==> #[trigger] bit_at(bytes@[j / 8], (j % 8) as u8) == (j < i
                        && flags@[j]),
            decreases n - i,
        {
            if flags[i] {
                let idx: usize = i / 8;
                let k: u8 = (i % 8) as u8;
                let old_bytes = Ghost(bytes@);
                let b: u8 = bytes[idx];
                bytes.set(idx, b | (1u8 << k));
                proof {
                    assert forall|j: int| 0 <= j < n implies #[trigger] bit_at(
                        bytes@[j / 8],
                        (j % 8) as u8,
                    ) == (j < i + 1 && flags@[j]) by {
                        if j / 8 == idx as int {
                            lemma_bit_after_set(b, k, (j % 8) as u8);
                            assert(bit_at(old_bytes@[j / 8], (j % 8) as u8) == (j < i
                                && flags@[j]));
                        } else {
                            assert(bytes@[j / 8] == old_bytes@[j / 8]);
                        }
                    }
                }
            }
            i = i + 1;
        }
        let r = Bitmap { bytes, len: n };
        assert(r@ =~= flags@);
        r
    }

    pub fn len(&self) -> (r: usize)
        ensures
            r == self@.len(),
    {
        self.len
    }

    /// Bit `i`.
    pub fn get(&self, i: usize) -> (r: bool)
        requires
            self.wf(),
            i < self@.len(),
        ensures
            r == self@[i as int],
    {
        let b: u8 = self.bytes[i / 8];
        let k: u8 = (i % 8) as u8;
        (b >> k) & 1u8 == 1u8
    }

    /// The packed bytes, least significant bit first; bits past the end are unset.
    pub fn as_bytes(&self) -> (r: &Vec<u8>)
        requires
            self.wf(),
        ensures
            r@.len() == (self@.len() + 7) / 8,
            forall|i: int| 0 <= i < self@.len() ==> bit_at(#[trigger] r@[i / 8], (i % 8) as u8) == self@[i],
    {
        &self.bytes
    }
}

/// Which slots of an array hold a value: all of them, or those whose bit is set.
#[derive(Clone, Debug)]
pub enum Validity {
    NoNulls,
    Bitmap(Bitmap),
}

impl Validity {
    /// Well-formed for an array of `len` slots.
    pub open spec fn wf_for(&self, len: nat) -> bool {
        match self {
            Validity::NoNulls => true,
            Validity::Bitmap(b) => b.wf() && b@.len() == len,
        }
    }

    /// Whether slot `i` holds a value.
    pub open spec fn valid_at(&self, i: int) -> bool {
        match self {
            Validity::NoNulls => true,
            Validity::Bitmap(b) => b@[i],
        }
    }

    /// Whether slot `i` of an array of `len` slots holds a value.
    pub fn is_valid(&self, i: usize, len: usize) -> (r: bool)
        requires
            self.wf_for(len as nat),
            i < len,
        ensures
            r == self.valid_at(i as int),
    {
        match self {
            Validity::NoNulls => true,
            Validity::Bitmap(b) => b.get(i),
        }
    }

    /// The presence flags of a sequence of optional values, as a bitmap.
    pub fn of_options<T>(items: &Vec<Option<T>>) -> (r: Validity)
        ensures
            r.wf_for(items@.len()),
            forall|i: int| 0 <= i < items@.len() ==> r.valid_at(i) == (items@[i] is Some),
            r is Bitmap,
    {
        let mut flags: Vec<bool> = Vec::new();
        let mut i: usize = 0;
        while i < items.len()
            invariant
                i <= items@.len(),
                flags@.len() == i,
                forall|j: int| 0 <= j < i ==> flags@[j] == (items@[j] is Some),
            decreases items@.len() - i,
        {
            flags.push(items[i].is_some());
            i = i + 1;
        }
        Validity::Bitmap(Bitmap::from_bools(&flags))
    }
}

} // verus!
