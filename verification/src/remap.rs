//! The per-record join policies of the stream remapper.
//!
//! Each policy rewrites one identifier field of a record stream using an
//! index source. The policies differ in their index source and in what a
//! missing key means: pass the record through with a diagnostic, drop the
//! record, emit one record per associated id, or fail the whole stream.

use vstd::prelude::*;

verus! {

use crate::index::emitted_posts;
use crate::matrix::decode_opt_id;
use crate::matrix::opt_id_of;
use crate::matrix::MatLEView;

/// A stream-fatal remapping failure.
#[derive(Debug, PartialEq, Eq, Structural)]
pub enum RemapError {
    /// A key that the data model assumes always present was absent from a
    /// one-to-one index: an upstream data-generation bug.
    MissingKey(u32),
    /// Two positionally-aligned matrices ran out of rows at different
    /// indices: mismatched or corrupted binary inputs.
    RowCountMismatch,
}

/// The url-to-post join backed by a positional matrix: row `url_id` of a
/// one-word-per-row matrix holds the post id, with zero meaning "no
/// associated post". Returns the post id to substitute, or `None` when the
/// record is to be dropped — because the row is absent (the url id is at or
/// past the row count) or holds the zero sentinel.
pub fn matrix_post_for(matrix: &MatLEView<'_>, url_id: u32) -> (r: Option<u32>)
    requires
        matrix.wf(),
        matrix.dim() == 1,
    ensures
        r == (if url_id < matrix.row_count() {
            opt_id_of(matrix.spec_row(url_id as int)[0])
        } else {
            None
        }),
{
    match matrix.get(url_id as usize) {
        None => None,
        Some(row) => decode_opt_id(row[0]),
    }
}

/// Rewriting a stream through an identity index leaves every id unchanged:
/// when each url id the one-to-many index knows maps to exactly itself,
/// the join emits, for any known id, exactly one record carrying that id
/// again. (That the join touches no other field of a record, and no field
/// order, is by construction of the callers: they substitute one field and
/// forward the rest untouched.)
pub proof fn lemma_identity_index_is_noop(m: Map<u32, Seq<u32>>, url_id: u32)
    requires
        forall|k: u32| m.contains_key(k) ==> m[k] == seq![k],
        m.contains_key(url_id),
    ensures
        emitted_posts(m, url_id) == seq![url_id],
{
}

/// One step of the embedding dump: the join of row `index` of a
/// positionally-aligned pair of matrices, the first holding one id per row
/// and the second one embedding vector per row.
///
/// `Ok(Some(..))` carries the id and the raw vector words of row `index`;
/// `Ok(None)` says both matrices are exhausted, the clean end of the
/// stream; and the join fails when exactly one matrix still has a row,
/// which means the two inputs were not produced together.
pub fn joined_row(ids: &MatLEView<'_>, vectors: &MatLEView<'_>, index: usize) -> (r: Result<
    Option<(u32, Vec<u32>)>,
    RemapError,
>)
    requires
        ids.wf(),
        vectors.wf(),
        ids.dim() == 1,
    ensures
        index < ids.row_count() && index < vectors.row_count() ==> (r matches Ok(Some(pair))
            && pair.0 == ids.spec_row(index as int)[0] && pair.1@ == vectors.spec_row(
            index as int,
        )),
        index >= ids.row_count() && index >= vectors.row_count() ==> r == Ok::<
            Option<(u32, Vec<u32>)>,
            RemapError,
        >(None),
        (index < ids.row_count()) != (index < vectors.row_count()) ==> r == Err::<
            Option<(u32, Vec<u32>)>,
            RemapError,
        >(RemapError::RowCountMismatch),
{
    match (ids.get(index), vectors.get(index)) {
        (Some(id_row), Some(vector)) => Ok(Some((id_row[0], vector))),
        (None, None) => Ok(None),
        _ => Err(RemapError::RowCountMismatch),
    }
}

/// The whole embedding dump join: every row of the id matrix paired with
/// the same row of the vector matrix, in row order. Succeeds exactly when
/// the two matrices hold the same number of rows; a length disagreement is
/// a fatal consistency error, never a truncated output.
pub fn join_rows(ids: &MatLEView<'_>, vectors: &MatLEView<'_>) -> (r: Result<
    Vec<(u32, Vec<u32>)>,
    RemapError,
>)
    requires
        ids.wf(),
        vectors.wf(),
        ids.dim() == 1,
    ensures
        ids.row_count() == vectors.row_count() ==> (r matches Ok(rows) && rows@.len()
            == ids.row_count() && forall|i: int|
            0 <= i < rows@.len() ==> (#[trigger] rows@[i]).0 == ids.spec_row(i)[0] && rows@[i].1@
                == vectors.spec_row(i)),
        ids.row_count() != vectors.row_count() ==> r == Err::<
            Vec<(u32, Vec<u32>)>,
            RemapError,
        >(RemapError::RowCountMismatch),
{
    let n_ids = ids.num_rows();
    let n_vectors = vectors.num_rows();
    if n_ids != n_vectors {
        return Err(RemapError::RowCountMismatch);
    }
    let mut rows: Vec<(u32, Vec<u32>)> = Vec::new();
    let mut i: usize = 0;
    while i < n_ids
        invariant
            ids.wf(),
            vectors.wf(),
            ids.dim() == 1,
            n_ids == ids.row_count(),
            n_ids == vectors.row_count(),
            i <= n_ids,
            rows@.len() == i,
            forall|k: int|
                0 <= k < i ==> (#[trigger] rows@[k]).0 == ids.spec_row(k)[0] && rows@[k].1@
                    == vectors.spec_row(k),
        decreases n_ids - i,
    {
        let id_row = match ids.get(i) {
            Some(id_row) => id_row,
            None => vstd::pervasive::unreached(),
        };
        let vector = match vectors.get(i) {
            Some(vector) => vector,
            None => vstd::pervasive::unreached(),
        };
        rows.push((id_row[0], vector));
        i = i + 1;
    }
    Ok(rows)
}

} // verus!
