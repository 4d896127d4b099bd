//! The embedding dump: joining a positionally-aligned pair of matrices and
//! rendering the rows as newline-delimited JSON with fixed float precision.

use hackerverse_refining::remap::join_rows;
use hackerverse_refining::remap::joined_row;
use hackerverse_refining::remap::RemapError;
use hackerverse_refining::MatLEView;

fn id_matrix_bytes(ids: &[u32]) -> Vec<u8> {
    let mut bytes = Vec::new();
    for id in ids {
        bytes.extend_from_slice(&id.to_le_bytes());
    }
    bytes
}

fn vector_matrix_bytes(rows: &[Vec<f32>]) -> Vec<u8> {
    let mut bytes = Vec::new();
    for row in rows {
        for f in row {
            bytes.extend_from_slice(&f.to_bits().to_le_bytes());
        }
    }
    bytes
}

#[test]
fn join_pairs_ids_with_vectors_row_by_row() {
    let ids_bytes = id_matrix_bytes(&[5, 9]);
    let vectors_bytes = vector_matrix_bytes(&[vec![1.5, 2.25], vec![0.5, 3.0]]);
    let ids = MatLEView::new(&ids_bytes, 1);
    let vectors = MatLEView::new(&vectors_bytes, 2);

    let rows = join_rows(&ids, &vectors).unwrap();
    assert_eq!(rows.len(), 2);
    assert_eq!(rows[0].0, 5);
    assert_eq!(rows[0].1, vec![1.5f32.to_bits(), 2.25f32.to_bits()]);
    assert_eq!(rows[1].0, 9);
    assert_eq!(rows[1].1, vec![0.5f32.to_bits(), 3.0f32.to_bits()]);
}

#[test]
fn misaligned_matrices_fail_before_a_third_record() {
    // Three id rows against two vector rows: the stream must emit the two
    // aligned rows and then fail, never inventing a third record.
    let ids_bytes = id_matrix_bytes(&[0, 1, 2]);
    let vectors_bytes = vector_matrix_bytes(&[vec![1.0, 2.0], vec![3.0, 4.0]]);
    let ids = MatLEView::new(&ids_bytes, 1);
    let vectors = MatLEView::new(&vectors_bytes, 2);

    assert_eq!(join_rows(&ids, &vectors), Err(RemapError::RowCountMismatch));

    let mut emitted = Vec::new();
    let mut failure = None;
    for index in 0.. {
        match joined_row(&ids, &vectors, index) {
            Ok(Some(row)) => emitted.push(row),
            Ok(None) => break,
            Err(e) => {
                failure = Some(e);
                break;
            }
        }
    }
    assert_eq!(emitted.len(), 2);
    assert_eq!(failure, Some(RemapError::RowCountMismatch));
}

#[test]
fn both_exhausted_is_a_clean_end() {
    let ids_bytes = id_matrix_bytes(&[8]);
    let vectors_bytes = vector_matrix_bytes(&[vec![1.0]]);
    let ids = MatLEView::new(&ids_bytes, 1);
    let vectors = MatLEView::new(&vectors_bytes, 1);
    assert!(matches!(joined_row(&ids, &vectors, 0), Ok(Some(_))));
    assert_eq!(joined_row(&ids, &vectors, 1), Ok(None));
    assert_eq!(joined_row(&ids, &vectors, 7), Ok(None));
}

#[test]
fn dumped_stream_reads_back_in_order_and_precision() {
    // Dump a matrix pair to NDJSON text the way the shell does, re-read it,
    // and check the ids come back as 0..N in strictly increasing order and
    // every vector component equals the float printed at two decimals.
    let vectors = vec![vec![1.5f32, 2.25], vec![0.5, 3.0], vec![4.75, 0.25]];
    let ids_bytes = id_matrix_bytes(&[0, 1, 2]);
    let vectors_bytes = vector_matrix_bytes(&vectors);
    let ids_view = MatLEView::new(&ids_bytes, 1);
    let vectors_view = MatLEView::new(&vectors_bytes, 2);

    let rows = join_rows(&ids_view, &vectors_view).unwrap();
    let mut lines = Vec::new();
    for (id, words) in &rows {
        let mut rendered = Vec::new();
        for w in words {
            rendered.push(format!("{:.2}", f32::from_bits(*w)));
        }
        lines.push(format!("{{\"id\":{},\"embeddings\":[{}]}}", id, rendered.join(",")));
    }
    assert_eq!(lines[0], "{\"id\":0,\"embeddings\":[1.50,2.25]}");

    let mut previous: Option<u64> = None;
    for (i, line) in lines.iter().enumerate() {
        let record: serde_json::Value = serde_json::from_str(line).unwrap();
        let id = record["id"].as_u64().unwrap();
        assert_eq!(id, i as u64);
        if let Some(p) = previous {
            assert!(id > p);
        }
        previous = Some(id);
        let components = record["embeddings"].as_array().unwrap();
        assert_eq!(components.len(), vectors[i].len());
        for (j, component) in components.iter().enumerate() {
            let reprinted: f64 = format!("{:.2}", vectors[i][j]).parse().unwrap();
            assert_eq!(component.as_f64().unwrap(), reprinted);
        }
    }
}
