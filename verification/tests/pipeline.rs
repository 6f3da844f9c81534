use hexbomb::reader::{dump, ChunkReader};

#[test]
fn dump_hello_unbounded() {
    let data = [0x48u8, 0x65, 0x6C, 0x6C, 0x6F];
    let rows = dump(&data, true, 0, 16, 0);
    assert_eq!(rows.len(), 3);
    assert_eq!(
        rows[0],
        "┌──────────┬───────────────────────────────────────────────────┬───────────────────┐"
    );
    assert_eq!(
        rows[1],
        "│ ·······0 │ 48 65 6C 6C 6F          ┆                         │ Hello   ┆         │"
    );
    assert_eq!(
        rows[2],
        "└──────────┴───────────────────────────────────────────────────┴───────────────────┘"
    );
}

#[test]
fn dump_byte_limit_stops_after_three() {
    let data: Vec<u8> = (0u8..10).collect();
    let rows = dump(&data, false, 3, 16, 0);
    assert_eq!(rows.len(), 3);
    assert_eq!(
        rows[1],
        "│ ·······0 │ 00 01 02                ┆                         │ ···     ┆         │"
    );
}

#[test]
fn dump_empty_source_shows_single_empty_row() {
    let data: [u8; 0] = [];
    let rows = dump(&data, true, 0, 16, 0);
    assert_eq!(rows.len(), 3);
    assert_eq!(
        rows[0],
        "┌──────────┬───────────────────────────────────────────────────┬───────────────────┐"
    );
    assert_eq!(
        rows[1],
        "│        0 │                                                   │                   │"
    );
    assert_eq!(
        rows[2],
        "└──────────┴───────────────────────────────────────────────────┴───────────────────┘"
    );
}

#[test]
fn dump_zero_limit_shows_empty_row() {
    let data: Vec<u8> = (0u8..10).collect();
    let rows = dump(&data, false, 0, 16, 0);
    assert_eq!(rows.len(), 3);
    assert_eq!(
        rows[1],
        "│        0 │                                                   │                   │"
    );
}

#[test]
fn dump_tail_after_negative_offset() {
    let data: Vec<u8> = (0u8..8).collect();
    let resolved = hexbomb::offset::resolve(-4, data.len()).unwrap();
    assert_eq!(resolved.seek_to, Some(4));
    assert_eq!(resolved.display_offset, 4);
    let rows = dump(&data[4..], true, 0, 16, resolved.display_offset);
    assert_eq!(rows.len(), 3);
    assert_eq!(
        rows[1],
        "│ ·······4 │ 04 05 06 07             ┆                         │ ····    ┆         │"
    );
}

#[test]
fn dump_splits_rows_at_row_width() {
    let data: Vec<u8> = (0u8..20).collect();
    let rows = dump(&data, true, 0, 16, 0);
    assert_eq!(rows.len(), 4);
    assert_eq!(
        rows[1],
        "│ ·······0 │ 00 01 02 03 04 05 06 07 ┆ 08 09 0A 0B 0C 0D 0E 0F │ ········┆········ │"
    );
    assert_eq!(
        rows[2],
        "│ ······10 │ 10 11 12 13             ┆                         │ ····    ┆         │"
    );
}

#[test]
fn dump_limit_beyond_source_reads_everything() {
    let data = [0x41u8, 0x42];
    let rows = dump(&data, false, 100, 16, 0);
    assert_eq!(rows.len(), 3);
    assert_eq!(
        rows[1],
        "│ ·······0 │ 41 42                   ┆                         │ AB      ┆         │"
    );
}

#[test]
fn dump_is_deterministic() {
    let data: Vec<u8> = (0u8..20).collect();
    let first = dump(&data, false, 17, 16, 3);
    let second = dump(&data, false, 17, 16, 3);
    assert_eq!(first, second);
}

#[test]
fn dump_row_width_10_gaps_mid_row() {
    let data: &[u8] = b"ABCDEFGHIJ";
    let rows = dump(data, true, 0, 10, 0);
    assert_eq!(rows.len(), 3);
    assert_eq!(rows[0], "┌──────────┬─────────────────────────────────┬─────────────┐");
    assert_eq!(rows[1], "│ ·······0 │ 41 42 43 44 45 46 47 48 ┆ 49 4A │ ABCDEFGH┆IJ │");
}

#[test]
fn dump_row_width_one() {
    let data = [0x41u8, 0x42];
    let rows = dump(&data, true, 0, 1, 0);
    assert_eq!(rows.len(), 4);
    assert_eq!(rows[0], "┌──────────┬────┬───┐");
    assert_eq!(rows[1], "│ ·······0 │ 41 │ A │");
    assert_eq!(rows[2], "│ ·······1 │ 42 │ B │");
}

#[test]
fn reader_want_unbounded_is_row_width() {
    let reader = ChunkReader::new(true, 0, 0);
    assert_eq!(reader.want(16), 16);
}

#[test]
fn reader_want_bounded_caps_at_remaining() {
    let reader = ChunkReader::new(false, 10, 0);
    assert_eq!(reader.want(16), 10);
    assert_eq!(reader.want(8), 8);
}

#[test]
fn reader_advance_counts_offset_and_remaining() {
    let mut reader = ChunkReader::new(false, 10, 100);
    reader.advance(6);
    assert_eq!(reader.offset, 106);
    assert_eq!(reader.remaining, 4);
    assert_eq!(reader.want(16), 4);
}

#[test]
fn reader_advance_saturates_on_over_delivery() {
    let mut reader = ChunkReader::new(false, 4, usize::MAX - 2);
    reader.advance(9);
    assert_eq!(reader.offset, usize::MAX);
    assert_eq!(reader.remaining, 0);
    assert_eq!(reader.want(16), 0);
}
