use hackerverse_refining::MatLEView;
use hackerverse_refining::PositionalMatrixBuilder;

#[test]
fn builder_grows_to_the_url_id_and_zero_fills() {
    let mut builder = PositionalMatrixBuilder::new();
    builder.record(42, 5);
    assert_eq!(builder.len(), 6);
    for url_id in 0..5 {
        assert_eq!(builder.entry(url_id), 0);
    }
    assert_eq!(builder.entry(5), 42);
}

#[test]
fn builder_last_write_wins_for_a_shared_url() {
    let mut builder = PositionalMatrixBuilder::new();
    builder.record(100, 3);
    builder.record(101, 3);
    assert_eq!(builder.entry(3), 101);
}

#[test]
fn builder_never_shrinks_on_an_out_of_order_url() {
    let mut builder = PositionalMatrixBuilder::new();
    builder.record(9, 4);
    builder.record(8, 1);
    assert_eq!(builder.len(), 5);
    assert_eq!(builder.entry(1), 8);
    assert_eq!(builder.entry(4), 9);
}

#[test]
fn serialisation_is_little_endian_word_order() {
    let mut builder = PositionalMatrixBuilder::new();
    builder.record(0x12345678, 0);
    builder.record(1, 1);
    let bytes = builder.to_bytes();
    assert_eq!(bytes, vec![0x78, 0x56, 0x34, 0x12, 1, 0, 0, 0]);
}

#[test]
fn serialised_table_reads_back_row_by_row() {
    let mut builder = PositionalMatrixBuilder::new();
    builder.record(7, 0);
    builder.record(42, 5);
    builder.record(3, 2);
    let bytes = builder.to_bytes();

    let matrix = MatLEView::new(&bytes, 1);
    assert_eq!(matrix.num_rows(), 6);
    assert_eq!(matrix.get(0), Some(vec![7]));
    assert_eq!(matrix.get(1), Some(vec![0]));
    assert_eq!(matrix.get(2), Some(vec![3]));
    assert_eq!(matrix.get(5), Some(vec![42]));
    assert_eq!(matrix.get(6), None);
}
