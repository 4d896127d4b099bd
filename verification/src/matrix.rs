//! A typed, bounds-checked, non-owning view over a byte buffer holding
//! fixed-width rows of little-endian 32-bit words.
//!
//! A matrix file is a headerless byte sequence encoding `N` rows of `dim`
//! elements each; every element is a 32-bit word stored as four
//! little-endian bytes. The row width is supplied by the caller and fixed
//! per view instance, so the bounds arithmetic is checked once at
//! construction and every access is a plain range test.

use vstd::prelude::*;

verus! {

use vstd::arithmetic::div_mod::lemma_fundamental_div_mod;
use vstd::arithmetic::mul::lemma_mul_inequality;
use vstd::arithmetic::mul::lemma_mul_inequality_converse;
use vstd::arithmetic::mul::lemma_mul_is_associative;
use vstd::arithmetic::mul::lemma_mul_is_commutative;
use vstd::arithmetic::mul::lemma_mul_is_distributive_add_other_way;
use vstd::bytes::spec_u32_from_le_bytes;
use vstd::bytes::u32_from_le_bytes;
use vstd::slice::slice_subrange;


/// The word at index `i` of `bytes`, read as four little-endian bytes.
pub open spec fn word_at(bytes: Seq<u8>, i: int) -> u32 {
    spec_u32_from_le_bytes(bytes.subrange(i * 4, i * 4 + 4))
}

/// Row `i` of `bytes` under row width `dim`: the `dim` words decoded from
/// the byte span `[i*dim*4, (i+1)*dim*4)`.
pub open spec fn row_words(bytes: Seq<u8>, dim: int, i: int) -> Seq<u32> {
    Seq::new(dim as nat, |j: int| word_at(bytes, i * dim + j))
}

/// An optional-nonzero 32-bit identifier: zero encodes "no association",
/// any other word is the identifier itself.
pub open spec fn opt_id_of(word: u32) -> Option<u32> {
    if word == 0 {
        None
    } else {
        Some(word)
    }
}

/// Decodes an optional-nonzero identifier word into an explicit sum type,
/// so that the "no association" sentinel never travels on as a valid id.
pub fn decode_opt_id(word: u32) -> (r: Option<u32>)
    ensures
        r == opt_id_of(word),
{
    if word == 0 {
        None
    } else {
        Some(word)
    }
}

/// A non-owning view of a byte buffer as a matrix of rows of `dim`
/// little-endian 32-bit words each. The buffer is borrowed; the view never
/// copies it and never reads past its end.
pub struct MatLEView<'m> {
    bytes: &'m [u8],
    dim: usize,
}

impl<'m> MatLEView<'m> {
    /// The borrowed bytes, as a mathematical sequence.
    pub closed spec fn bytes(&self) -> Seq<u8> {
        self.bytes@
    }

    /// The fixed row width, in words.
    pub closed spec fn dim(&self) -> int {
        self.dim as int
    }

    /// Structural invariant: the row width is positive, a row's byte size
    /// fits in `usize`, and the buffer length is an exact multiple of it.
    pub open spec fn wf(&self) -> bool {
        &&& 0 < self.dim()
        &&& self.dim() * 4 <= usize::MAX
        &&& self.bytes().len() as int % (self.dim() * 4) == 0
    }

    /// How many complete rows the buffer holds.
    pub open spec fn row_count(&self) -> int {
        self.bytes().len() as int / (self.dim() * 4)
    }

    /// Row `i` of the viewed buffer.
    pub open spec fn spec_row(&self, i: int) -> Seq<u32> {
        row_words(self.bytes(), self.dim(), i)
    }

    /// Wraps `bytes` as a matrix of rows of `dim` words. The buffer length
    /// must be an exact multiple of the row byte size; a caller that cannot
    /// guarantee this uses [`MatLEView::try_new`].
    pub fn new(bytes: &'m [u8], dim: usize) -> (m: Self)
        requires
            0 < dim,
            dim * 4 <= usize::MAX,
            bytes@.len() as int % (dim * 4) == 0,
        ensures
            m.wf(),
            m.bytes() == bytes@,
            m.dim() == dim,
    {
        MatLEView { bytes, dim }
    }

    /// Fallible construction: wraps `bytes` exactly when `dim` is positive,
    /// a row's byte size fits in `usize`, and the buffer length is an exact
    /// multiple of it; any other input is a structural error.
    pub fn try_new(bytes: &'m [u8], dim: usize) -> (r: Option<Self>)
        ensures
            r is Some <==> {
                &&& 0 < dim
                &&& dim * 4 <= usize::MAX
                &&& bytes@.len() as int % (dim * 4) == 0
            },
            r matches Some(m) ==> m.wf() && m.bytes() == bytes@ && m.dim() == dim,
    {
        if dim == 0 {
            return None;
        }
        match dim.checked_mul(4) {
            None => None,
            Some(stride) => {
                if bytes.len() % stride == 0 {
                    Some(MatLEView { bytes, dim })
                } else {
                    None
                }
            },
        }
    }

    /// The number of complete rows.
    pub fn num_rows(&self) -> (n: usize)
        requires
            self.wf(),
        ensures
            n == self.row_count(),
    {
        self.bytes.len() / (self.dim * 4)
    }

    /// Returns row `index` decoded into words, or `None` when `index` is at
    /// or past the row count. Absence is the conventional end-of-matrix
    /// signal, not an error: every index below the row count yields a row,
    /// and no access ever touches bytes outside the row's span. Because
    /// rows are decoded byte by byte, every in-range bit pattern is a valid
    /// row of words — there is no alignment or bit-pattern failure left to
    /// report, so a byte-layout error cannot arise here.
    pub fn get(&self, index: usize) -> (r: Option<Vec<u32>>)
        requires
            self.wf(),
        ensures
            r is Some <==> index < self.row_count(),
            r matches Some(row) ==> row@ == self.spec_row(index as int),
    {
        let stride = self.dim * 4;
        let count = self.bytes.len() / stride;
        if index >= count {
            return None;
        }
        proof {
            let len = self.bytes@.len() as int;
            let s = stride as int;
            lemma_fundamental_div_mod(len, s);
            lemma_mul_is_commutative(count as int, s);
            lemma_mul_inequality(index as int + 1, count as int, s);
            lemma_mul_is_distributive_add_other_way(s, index as int, 1);
            lemma_mul_inequality(index as int, index as int + 1, s);
            assert(index as int * s + s <= len);
        }
        let base = index * stride;
        let mut row: Vec<u32> = Vec::new();
        let mut j: usize = 0;
        while j < self.dim
            invariant
                self.wf(),
                j <= self.dim,
                stride == self.dim() * 4,
                index < self.row_count(),
                base == index as int * stride,
                base + stride <= self.bytes().len(),
                self.bytes().len() <= usize::MAX,
                row@.len() == j,
                forall|k: int|
                    0 <= k < j ==> row@[k] == word_at(
                        self.bytes(),
                        index as int * self.dim() + k,
                    ),
            decreases self.dim - j,
        {
            proof {
                lemma_mul_inequality(j as int + 1, self.dim(), 4);
                lemma_mul_is_distributive_add_other_way(4, j as int, 1);
            }
            let off = base + j * 4;
            let word = u32_from_le_bytes(slice_subrange(self.bytes, off, off + 4));
            proof {
                lemma_mul_is_associative(index as int, self.dim(), 4);
                assert((index as int * self.dim() + j) * 4 == off);
            }
            row.push(word);
            j = j + 1;
        }
        assert(row@ =~= self.spec_row(index as int));
        Some(row)
    }
}

/// An index below the row count has its full byte span inside the buffer,
/// and an index at or past it extends beyond the buffer end: the rows
/// partition exactly the bytes the view was given.
pub proof fn lemma_row_span_in_bounds<'m>(m: MatLEView<'m>, i: int)
    requires
        m.wf(),
        0 <= i,
    ensures
        i < m.row_count() <==> (i + 1) * (m.dim() * 4) <= m.bytes().len(),
{
    let stride = m.dim() * 4;
    let count = m.row_count();
    lemma_fundamental_div_mod(m.bytes().len() as int, stride);
    lemma_mul_is_commutative(count, stride);
    if i < count {
        lemma_mul_inequality(i + 1, count, stride);
    }
    if (i + 1) * stride <= m.bytes().len() {
        lemma_mul_inequality_converse(i + 1, count, stride);
    }
}

} // verus!
