use hexbomb::render::{bottom_line, empty_line, line_number, top_line};

#[test]
fn top_line_width_16() {
    assert_eq!(
        top_line(16),
        "┌──────────┬───────────────────────────────────────────────────┬───────────────────┐"
    );
}

#[test]
fn bottom_line_width_16() {
    assert_eq!(
        bottom_line(16),
        "└──────────┴───────────────────────────────────────────────────┴───────────────────┘"
    );
}

#[test]
fn borders_width_4_have_no_group_gap() {
    assert_eq!(top_line(4), "┌──────────┬─────────────┬──────┐");
    assert_eq!(bottom_line(4), "└──────────┴─────────────┴──────┘");
}

#[test]
fn borders_match_structurally() {
    let top = top_line(16);
    let bottom = bottom_line(16);
    assert_eq!(top.chars().count(), bottom.chars().count());
}

#[test]
fn line_number_zero_is_dot_padded() {
    assert_eq!(line_number(0), " ·······0");
}

#[test]
fn line_number_eight_digits_keeps_leading_space() {
    assert_eq!(line_number(0x1ABCDEF0), " 1ABCDEF0");
}

#[test]
fn line_number_over_eight_digits_is_bare() {
    assert_eq!(line_number(0x123456789), "123456789");
}

#[test]
fn empty_line_width_16() {
    assert_eq!(
        empty_line(0, 16),
        "│        0 │                                                   │                   │"
    );
}

#[test]
fn empty_line_shows_display_offset() {
    assert_eq!(
        empty_line(4, 16),
        "│        4 │                                                   │                   │"
    );
}

#[test]
fn line_hello_width_16() {
    let bytes = [0x48u8, 0x65, 0x6C, 0x6C, 0x6F];
    assert_eq!(
        hexbomb::render::line(&bytes, 5, 0, 16),
        "│ ·······0 │ 48 65 6C 6C 6F          ┆                         │ Hello   ┆         │"
    );
}

#[test]
fn line_full_row_has_group_gaps() {
    let bytes: Vec<u8> = (0u8..16).collect();
    assert_eq!(
        hexbomb::render::line(&bytes, 16, 0, 16),
        "│ ·······0 │ 00 01 02 03 04 05 06 07 ┆ 08 09 0A 0B 0C 0D 0E 0F │ ········┆········ │"
    );
}

#[test]
fn line_nonprintable_bytes_show_dots() {
    let bytes = [0x00u8, 0xFF, 0x41];
    assert_eq!(hexbomb::render::line(&bytes, 3, 0, 4), "│ ·······0 │ 00 FF 41    │ ··A  │");
}

#[test]
fn line_rendering_is_idempotent() {
    let bytes = [0x00u8, 0x7F, 0x20, 0x7E, 0x31];
    let first = hexbomb::render::line(&bytes, 5, 9, 16);
    let second = hexbomb::render::line(&bytes, 5, 9, 16);
    assert_eq!(first, second);
    assert_eq!(first.as_bytes(), second.as_bytes());
}

#[test]
fn line_aligns_with_borders() {
    let bytes = [0xABu8, 0xCD];
    let top = top_line(16);
    let row = hexbomb::render::line(&bytes, 2, 0, 16);
    let empty = empty_line(0, 16);
    let bottom = bottom_line(16);
    assert_eq!(top.chars().count(), row.chars().count());
    assert_eq!(top.chars().count(), empty.chars().count());
    assert_eq!(top.chars().count(), bottom.chars().count());
}
