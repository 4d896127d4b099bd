//! Building a positional matrix: an array-indexed partial function from a
//! dense integer domain (url ids) to target ids (post ids), serialised as a
//! headerless little-endian matrix file with one word per row. Zero is the
//! sentinel for "no associated post".

use vstd::prelude::*;

verus! {

use vstd::bytes::lemma_auto_spec_u32_to_from_le_bytes;
use vstd::bytes::spec_u32_to_le_bytes;
use vstd::bytes::u32_to_le_bytes;

use crate::matrix::row_words;
use crate::matrix::word_at;

/// The little-endian serialisation of a sequence of 32-bit words: four
/// bytes per word, in word order.
pub open spec fn le_bytes_of_words(ws: Seq<u32>) -> Seq<u8>
    decreases ws.len(),
{
    if ws.len() == 0 {
        Seq::empty()
    } else {
        spec_u32_to_le_bytes(ws[0]) + le_bytes_of_words(ws.drop_first())
    }
}

pub proof fn lemma_le_bytes_of_words_len(ws: Seq<u32>)
    ensures
        le_bytes_of_words(ws).len() == 4 * ws.len(),
    decreases ws.len(),
{
    lemma_auto_spec_u32_to_from_le_bytes();
    if ws.len() > 0 {
        lemma_le_bytes_of_words_len(ws.drop_first());
    }
}

pub proof fn lemma_le_bytes_of_words_push(ws: Seq<u32>, w: u32)
    ensures
        le_bytes_of_words(ws.push(w)) == le_bytes_of_words(ws) + spec_u32_to_le_bytes(w),
    decreases ws.len(),
{
    lemma_auto_spec_u32_to_from_le_bytes();
    if ws.len() == 0 {
        assert(ws.push(w).drop_first() =~= Seq::<u32>::empty());
        assert(le_bytes_of_words(Seq::<u32>::empty()) == Seq::<u8>::empty());
        assert(ws.push(w)[0] == w);
        assert(le_bytes_of_words(ws) == Seq::<u8>::empty());
        assert(le_bytes_of_words(ws.push(w)) =~= le_bytes_of_words(ws) + spec_u32_to_le_bytes(w));
    } else {
        assert(ws.push(w).drop_first() =~= ws.drop_first().push(w));
        lemma_le_bytes_of_words_push(ws.drop_first(), w);
        assert(le_bytes_of_words(ws.push(w)) =~= le_bytes_of_words(ws) + spec_u32_to_le_bytes(w));
    }
}

pub proof fn lemma_le_bytes_of_words_index(ws: Seq<u32>, i: int)
    requires
        0 <= i < ws.len(),
    ensures
        word_at(le_bytes_of_words(ws), i) == ws[i],
    decreases i,
{
    lemma_auto_spec_u32_to_from_le_bytes();
    lemma_le_bytes_of_words_len(ws.drop_first());
    if i == 0 {
        assert(le_bytes_of_words(ws).subrange(0, 4) =~= spec_u32_to_le_bytes(ws[0]));
    } else {
        lemma_le_bytes_of_words_index(ws.drop_first(), i - 1);
        assert(le_bytes_of_words(ws).subrange(4 * i, 4 * i + 4) =~= le_bytes_of_words(
            ws.drop_first(),
        ).subrange(4 * (i - 1), 4 * (i - 1) + 4));
    }
}

/// Round trip: serialising a sequence of words as a little-endian matrix
/// file and viewing the bytes again as a one-word-per-row matrix yields
/// exactly the original words, row by row.
pub proof fn lemma_words_bytes_roundtrip(ws: Seq<u32>)
    ensures
        le_bytes_of_words(ws).len() == 4 * ws.len(),
        forall|i: int|
            0 <= i < ws.len() ==> #[trigger] row_words(le_bytes_of_words(ws), 1, i) == seq![ws[i]],
{
    lemma_le_bytes_of_words_len(ws);
    assert forall|i: int| 0 <= i < ws.len() implies #[trigger] row_words(
        le_bytes_of_words(ws),
        1,
        i,
    ) == seq![ws[i]] by {
        lemma_le_bytes_of_words_index(ws, i);
        assert(row_words(le_bytes_of_words(ws), 1, i) =~= seq![ws[i]]);
    }
}

/// Accumulates the url-id-indexed table of post ids: entry `u` holds the id
/// of the post whose url id is `u`, or zero when no post references it.
/// When several posts share a url id, the last recorded one wins.
pub struct PositionalMatrixBuilder {
    post_ids: Vec<u32>,
}

impl View for PositionalMatrixBuilder {
    type V = Seq<u32>;

    closed spec fn view(&self) -> Seq<u32> {
        self.post_ids@
    }
}

impl PositionalMatrixBuilder {
    /// An empty table: no url id has an associated post yet.
    pub fn new() -> (b: Self)
        ensures
            b@ == Seq::<u32>::empty(),
    {
        PositionalMatrixBuilder { post_ids: Vec::new() }
    }

    /// Records that post `post_id` references url `url_id`. The table grows
    /// to cover `url_id` if needed, filling new entries with the zero
    /// sentinel; it never shrinks, and every other entry is untouched.
    pub fn record(&mut self, post_id: u32, url_id: usize)
        requires
            url_id < usize::MAX,
        ensures
            final(self)@.len() == (if old(self)@.len() < url_id + 1 {
                url_id + 1
            } else {
                old(self)@.len() as int
            }),
            final(self)@[url_id as int] == post_id,
            forall|k: int|
                0 <= k < final(self)@.len() && k != url_id ==> final(self)@[k] == (if k < old(
                    self,
                )@.len() {
                    old(self)@[k]
                } else {
                    0u32
                }),
    {
        while self.post_ids.len() <= url_id
            invariant
                url_id < usize::MAX,
                old(self)@.len() <= self@.len(),
                old(self)@.len() > url_id ==> self@ == old(self)@,
                old(self)@.len() <= url_id ==> self@.len() <= url_id + 1,
                forall|k: int| 0 <= k < old(self)@.len() ==> self@[k] == old(self)@[k],
                forall|k: int| old(self)@.len() <= k < self@.len() ==> self@[k] == 0u32,
            decreases url_id + 1 - self.post_ids.len(),
        {
            self.post_ids.push(0);
        }
        self.post_ids.set(url_id, post_id);
    }

    /// The number of entries, that is one more than the largest url id seen.
    pub fn len(&self) -> (n: usize)
        ensures
            n == self@.len(),
    {
        self.post_ids.len()
    }

    /// The post id recorded for `url_id`, zero meaning "no associated post".
    pub fn entry(&self, url_id: usize) -> (w: u32)
        requires
            url_id < self@.len(),
        ensures
            w == self@[url_id as int],
    {
        self.post_ids[url_id]
    }

    /// Serialises the table as a headerless matrix file: each entry becomes
    /// four little-endian bytes, in entry order.
    pub fn to_bytes(&self) -> (bytes: Vec<u8>)
        ensures
            bytes@ == le_bytes_of_words(self@),
    {
        let mut out: Vec<u8> = Vec::new();
        let mut i: usize = 0;
        while i < self.post_ids.len()
            invariant
                i <= self@.len(),
                out@ == le_bytes_of_words(self@.take(i as int)),
            decreases self@.len() - i,
        {
            let mut word_bytes = u32_to_le_bytes(self.post_ids[i]);
            out.append(&mut word_bytes);
            proof {
                lemma_le_bytes_of_words_push(self@.take(i as int), self@[i as int]);
                assert(self@.take(i + 1) =~= self@.take(i as int).push(self@[i as int]));
            }
            i = i + 1;
        }
        proof {
            assert(self@.take(self@.len() as int) =~= self@);
        }
        out
    }
}

} // verus!
