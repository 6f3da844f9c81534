use vstd::prelude::*;

use crate::hex::{hex_chars, hex_digit, hex_digit_exec, hex_rep};

verus! {

/// True for the byte values shown verbatim in the character column:
/// the printable ASCII range.
pub open spec fn is_printable(b: u8) -> bool {
    32 <= b && b <= 126
}

/// The glyph shown for byte `b` in the character column of a data row: the
/// byte's own character when printable, a middle dot otherwise.
pub open spec fn char_glyph(b: u8) -> char {
    if is_printable(b) {
        b as char
    } else {
        '·'
    }
}

/// True at the columns that carry an extra group separator in front of
/// their cell: every eighth column after the first.
pub open spec fn group_gap_at(i: int) -> bool {
    i > 0 && i % 8 == 0
}

/// `k` copies of the character `c`.
pub open spec fn repeat_ch(c: char, k: int) -> Seq<char>
    decreases k,
{
    if k <= 0 {
        Seq::empty()
    } else {
        repeat_ch(c, k - 1) + seq![c]
    }
}

/// The hex-region cell of a data row at column `i`: a space and two
/// uppercase hex digits while the column lies inside the chunk's valid
/// length `n`, three blanks beyond it.
pub open spec fn hex_cell(bytes: Seq<u8>, n: int, i: int) -> Seq<char>
    recommends
        n <= bytes.len(),
{
    if 0 <= i < n {
        seq![' ', hex_digit(bytes[i] as int / 16), hex_digit(bytes[i] as int % 16)]
    } else {
        seq![' ', ' ', ' ']
    }
}

/// The character-region cell of a data row at column `i`.
pub open spec fn char_cell(bytes: Seq<u8>, n: int, i: int) -> Seq<char>
    recommends
        n <= bytes.len(),
{
    if 0 <= i < n {
        seq![char_glyph(bytes[i])]
    } else {
        seq![' ']
    }
}

/// The hex region of a border row over the columns below `upto`.
pub open spec fn border_hex_region(upto: int) -> Seq<char>
    decreases upto,
{
    if upto <= 0 {
        Seq::empty()
    } else {
        border_hex_region(upto - 1) + (if group_gap_at(upto - 1) {
            seq!['─', '─']
        } else {
            Seq::empty()
        }) + seq!['─', '─', '─']
    }
}

/// The character region of a border row over the columns below `upto`.
pub open spec fn border_char_region(upto: int) -> Seq<char>
    decreases upto,
{
    if upto <= 0 {
        Seq::empty()
    } else {
        border_char_region(upto - 1) + (if group_gap_at(upto - 1) {
            seq!['─']
        } else {
            Seq::empty()
        }) + seq!['─']
    }
}

/// The all-blank hex region of the empty row.
pub open spec fn blank_hex_region(upto: int) -> Seq<char>
    decreases upto,
{
    if upto <= 0 {
        Seq::empty()
    } else {
        blank_hex_region(upto - 1) + (if group_gap_at(upto - 1) {
            seq![' ', ' ']
        } else {
            Seq::empty()
        }) + seq![' ', ' ', ' ']
    }
}

/// The all-blank character region of the empty row.
pub open spec fn blank_char_region(upto: int) -> Seq<char>
    decreases upto,
{
    if upto <= 0 {
        Seq::empty()
    } else {
        blank_char_region(upto - 1) + (if group_gap_at(upto - 1) {
            seq![' ']
        } else {
            Seq::empty()
        }) + seq![' ']
    }
}

/// The hex region of a data row over the columns below `upto`.
pub open spec fn data_hex_region(bytes: Seq<u8>, n: int, upto: int) -> Seq<char>
    decreases upto,
{
    if upto <= 0 {
        Seq::empty()
    } else {
        data_hex_region(bytes, n, upto - 1) + (if group_gap_at(upto - 1) {
            seq![' ', '┆']
        } else {
            Seq::empty()
        }) + hex_cell(bytes, n, upto - 1)
    }
}

/// The character region of a data row over the columns below `upto`.
pub open spec fn data_char_region(bytes: Seq<u8>, n: int, upto: int) -> Seq<char>
    decreases upto,
{
    if upto <= 0 {
        Seq::empty()
    } else {
        data_char_region(bytes, n, upto - 1) + (if group_gap_at(upto - 1) {
            seq!['┆']
        } else {
            Seq::empty()
        }) + char_cell(bytes, n, upto - 1)
    }
}

/// The top border row for `w` byte columns.
pub open spec fn top_row(w: int) -> Seq<char> {
    seq!['┌'] + repeat_ch('─', 10) + seq!['┬'] + border_hex_region(w) + seq!['─', '┬', '─']
        + border_char_region(w) + seq!['─', '┐']
}

/// The bottom border row for `w` byte columns.
pub open spec fn bottom_row(w: int) -> Seq<char> {
    seq!['└'] + repeat_ch('─', 10) + seq!['┴'] + border_hex_region(w) + seq!['─', '┴', '─']
        + border_char_region(w) + seq!['─', '┘']
}

/// The offset label of a data row: the offset in uppercase hexadecimal,
/// right-aligned in eight columns behind a leading space, the free columns
/// filled with middle dots; printed bare when it needs more than eight
/// digits.
pub open spec fn offset_label(off: int) -> Seq<char> {
    if hex_rep(off).len() > 8 {
        hex_rep(off)
    } else {
        seq![' '] + repeat_ch('·', 8 - hex_rep(off).len()) + hex_rep(off)
    }
}

/// The offset field of the empty row: the same eight columns, padded with
/// spaces instead of dots.
pub open spec fn empty_offset_field(off: int) -> Seq<char> {
    if hex_rep(off).len() >= 8 {
        hex_rep(off)
    } else {
        repeat_ch(' ', 8 - hex_rep(off).len()) + hex_rep(off)
    }
}

/// One data row: offset label, hex cells, character cells, framed and
/// divided by vertical bars.
pub open spec fn data_row(bytes: Seq<u8>, n: int, off: int, w: int) -> Seq<char> {
    seq!['│'] + offset_label(off) + seq![' ', '│'] + data_hex_region(bytes, n, w)
        + seq![' ', '│', ' '] + data_char_region(bytes, n, w) + seq![' ', '│']
}

/// The row shown when the source yielded no bytes at all.
pub open spec fn empty_row(off: int, w: int) -> Seq<char> {
    seq!['│', ' '] + empty_offset_field(off) + seq![' ', '│'] + blank_hex_region(w)
        + seq![' ', '│', ' '] + blank_char_region(w) + seq![' ', '│']
}

/// Number of group gaps in a region of `w` columns: one in front of every
/// eighth column after the first.
pub open spec fn group_gaps(w: int) -> int {
    if w <= 0 {
        0
    } else {
        (w - 1) / 8
    }
}

proof fn lemma_group_gaps_step(w: int)
    requires
        w >= 1,
    ensures
        group_gaps(w) == group_gaps(w - 1) + if group_gap_at(w - 1) {
            1int
        } else {
            0int
        },
{
}

/// The hex region of a data row always holds exactly `w` three-character
/// cells and `group_gaps(w)` two-character gaps — its width depends on the
/// row width alone, never on how many of the bytes were valid.
pub proof fn lemma_data_hex_region_len(bytes: Seq<u8>, n: int, w: int)
    requires
        w >= 0,
    ensures
        data_hex_region(bytes, n, w).len() == 3 * w + 2 * group_gaps(w),
    decreases w,
{
    if w > 0 {
        lemma_data_hex_region_len(bytes, n, w - 1);
        lemma_group_gaps_step(w);
    }
}

/// The character region of a data row always holds exactly `w` one-character
/// cells and `group_gaps(w)` one-character gaps, whatever the chunk length.
pub proof fn lemma_data_char_region_len(bytes: Seq<u8>, n: int, w: int)
    requires
        w >= 0,
    ensures
        data_char_region(bytes, n, w).len() == w + group_gaps(w),
    decreases w,
{
    if w > 0 {
        lemma_data_char_region_len(bytes, n, w - 1);
        lemma_group_gaps_step(w);
    }
}

proof fn lemma_border_region_len(w: int)
    requires
        w >= 0,
    ensures
        border_hex_region(w).len() == 3 * w + 2 * group_gaps(w),
        border_char_region(w).len() == w + group_gaps(w),
    decreases w,
{
    if w > 0 {
        lemma_border_region_len(w - 1);
        lemma_group_gaps_step(w);
    }
}

proof fn lemma_blank_region_len(w: int)
    requires
        w >= 0,
    ensures
        blank_hex_region(w).len() == 3 * w + 2 * group_gaps(w),
        blank_char_region(w).len() == w + group_gaps(w),
    decreases w,
{
    if w > 0 {
        lemma_blank_region_len(w - 1);
        lemma_group_gaps_step(w);
    }
}

proof fn lemma_repeat_ch_len(c: char, k: int)
    requires
        k >= 0,
    ensures
        repeat_ch(c, k).len() == k,
    decreases k,
{
    if k > 0 {
        lemma_repeat_ch_len(c, k - 1);
    }
}

/// Every kind of row renders to the same width whenever the offset label
/// fits its eight columns, so the borders and the data rows line up: that
/// width is seventeen frame characters plus the two regions.
pub proof fn lemma_rows_aligned(bytes: Seq<u8>, n: int, off: int, w: int)
    requires
        w >= 0,
        hex_rep(off).len() <= 8,
    ensures
        top_row(w).len() == 17 + 4 * w + 3 * group_gaps(w),
        bottom_row(w).len() == top_row(w).len(),
        data_row(bytes, n, off, w).len() == top_row(w).len(),
        empty_row(off, w).len() == top_row(w).len(),
{
    lemma_repeat_ch_len('─', 10);
    lemma_repeat_ch_len('·', 8 - hex_rep(off).len());
    lemma_repeat_ch_len(' ', 8 - hex_rep(off).len());
    lemma_border_region_len(w);
    lemma_blank_region_len(w);
    lemma_data_hex_region_len(bytes, n, w);
    lemma_data_char_region_len(bytes, n, w);
}

/// Rendering is a pure function of the chunk: any two rows rendered from
/// the same bytes, valid length, offset and row width are identical.
pub proof fn lemma_render_deterministic(
    r1: Seq<char>,
    r2: Seq<char>,
    bytes: Seq<u8>,
    n: int,
    off: int,
    w: int,
)
    requires
        r1 == data_row(bytes, n, off, w),
        r2 == data_row(bytes, n, off, w),
    ensures
        r1 == r2,
{
}

/// Relies on `String`'s `FromIterator<char>` impl: collecting characters
/// yields the string holding exactly those characters in order.
#[verifier::external_body]
fn chars_to_string(v: &Vec<char>) -> (s: String)
    ensures
        s@ == v@,
{
    v.iter().collect()
}

fn push_repeat(v: &mut Vec<char>, c: char, k: usize)
    ensures
        final(v)@ == old(v)@ + repeat_ch(c, k as int),
{
    let mut i: usize = 0;
    assert(v@ =~= old(v)@ + repeat_ch(c, 0));
    while i < k
        invariant
            i <= k,
            v@ == old(v)@ + repeat_ch(c, i as int),
        decreases k - i,
    {
        v.push(c);
        i = i + 1;
        assert(v@ =~= old(v)@ + repeat_ch(c, i as int));
    }
}

fn push_border_body(v: &mut Vec<char>, w: usize, junction: char)
    ensures
        final(v)@ == old(v)@ + border_hex_region(w as int) + seq!['─', junction, '─']
            + border_char_region(w as int),
{
    let mut i: usize = 0;
    assert(v@ =~= old(v)@ + border_hex_region(0));
    while i < w
        invariant
            i <= w,
            v@ == old(v)@ + border_hex_region(i as int),
        decreases w - i,
    {
        if i > 0 && i % 8 == 0 {
            v.push('─');
            v.push('─');
        }
        v.push('─');
        v.push('─');
        v.push('─');
        i = i + 1;
        assert(v@ =~= old(v)@ + border_hex_region(i as int));
    }
    v.push('─');
    v.push(junction);
    v.push('─');
    let ghost head = old(v)@ + border_hex_region(w as int) + seq!['─', junction, '─'];
    assert(v@ =~= head + border_char_region(0));
    let mut j: usize = 0;
    while j < w
        invariant
            j <= w,
            v@ == head + border_char_region(j as int),
        decreases w - j,
    {
        if j > 0 && j % 8 == 0 {
            v.push('─');
        }
        v.push('─');
        j = j + 1;
        assert(v@ =~= head + border_char_region(j as int));
    }
}

/// Renders the top border row for `num_per_line` byte columns.
pub fn top_line(num_per_line: usize) -> (r: String)
    ensures
        r@ == top_row(num_per_line as int),
{
    let mut v: Vec<char> = Vec::new();
    v.push('┌');
    push_repeat(&mut v, '─', 10);
    v.push('┬');
    push_border_body(&mut v, num_per_line, '┬');
    v.push('─');
    v.push('┐');
    assert(v@ =~= top_row(num_per_line as int));
    chars_to_string(&v)
}

/// Renders the bottom border row for `num_per_line` byte columns.
pub fn bottom_line(num_per_line: usize) -> (r: String)
    ensures
        r@ == bottom_row(num_per_line as int),
{
    let mut v: Vec<char> = Vec::new();
    v.push('└');
    push_repeat(&mut v, '─', 10);
    v.push('┴');
    push_border_body(&mut v, num_per_line, '┴');
    v.push('─');
    v.push('┘');
    assert(v@ =~= bottom_row(num_per_line as int));
    chars_to_string(&v)
}

/// Renders the offset label of a data row.
pub fn line_number(offset: usize) -> (r: String)
    ensures
        r@ == offset_label(offset as int),
{
    let mut h = hex_chars(offset);
    if h.len() > 8 {
        assert(h@ =~= offset_label(offset as int));
        chars_to_string(&h)
    } else {
        let mut v: Vec<char> = Vec::new();
        v.push(' ');
        push_repeat(&mut v, '·', 8 - h.len());
        v.append(&mut h);
        assert(v@ =~= offset_label(offset as int));
        chars_to_string(&v)
    }
}

/// Renders the row shown when the source yielded no bytes.
pub fn empty_line(offset: usize, num_per_line: usize) -> (r: String)
    ensures
        r@ == empty_row(offset as int, num_per_line as int),
{
    let mut v: Vec<char> = Vec::new();
    v.push('│');
    v.push(' ');
    let mut h = hex_chars(offset);
    if h.len() < 8 {
        push_repeat(&mut v, ' ', 8 - h.len());
    }
    v.append(&mut h);
    v.push(' ');
    v.push('│');
    let ghost head = seq!['│', ' '] + empty_offset_field(offset as int) + seq![' ', '│'];
    assert(v@ =~= head + blank_hex_region(0));
    let mut i: usize = 0;
    while i < num_per_line
        invariant
            i <= num_per_line,
            v@ == head + blank_hex_region(i as int),
        decreases num_per_line - i,
    {
        if i > 0 && i % 8 == 0 {
            v.push(' ');
            v.push(' ');
        }
        v.push(' ');
        v.push(' ');
        v.push(' ');
        i = i + 1;
        assert(v@ =~= head + blank_hex_region(i as int));
    }
    v.push(' ');
    v.push('│');
    v.push(' ');
    let ghost head2 = head + blank_hex_region(num_per_line as int) + seq![' ', '│', ' '];
    assert(v@ =~= head2 + blank_char_region(0));
    let mut j: usize = 0;
    while j < num_per_line
        invariant
            j <= num_per_line,
            v@ == head2 + blank_char_region(j as int),
        decreases num_per_line - j,
    {
        if j > 0 && j % 8 == 0 {
            v.push(' ');
        }
        v.push(' ');
        j = j + 1;
        assert(v@ =~= head2 + blank_char_region(j as int));
    }
    v.push(' ');
    v.push('│');
    assert(v@ =~= empty_row(offset as int, num_per_line as int));
    chars_to_string(&v)
}

/// Renders one data row from the first `num_bytes` bytes of `bytes`,
/// labelled with `offset`, over `num_per_line` byte columns.
pub fn line(bytes: &[u8], num_bytes: usize, offset: usize, num_per_line: usize) -> (r: String)
    requires
        num_bytes <= bytes@.len(),
    ensures
        r@ == data_row(bytes@, num_bytes as int, offset as int, num_per_line as int),
{
    let mut v: Vec<char> = Vec::new();
    v.push('│');
    let mut h = hex_chars(offset);
    if h.len() <= 8 {
        v.push(' ');
        push_repeat(&mut v, '·', 8 - h.len());
    }
    v.append(&mut h);
    v.push(' ');
    v.push('│');
    let ghost n = num_bytes as int;
    let ghost head = seq!['│'] + offset_label(offset as int) + seq![' ', '│'];
    assert(v@ =~= head + data_hex_region(bytes@, n, 0));
    let mut i: usize = 0;
    while i < num_per_line
        invariant
            i <= num_per_line,
            n == num_bytes as int,
            num_bytes <= bytes@.len(),
            v@ == head + data_hex_region(bytes@, n, i as int),
        decreases num_per_line - i,
    {
        if i > 0 && i % 8 == 0 {
            v.push(' ');
            v.push('┆');
        }
        if i < num_bytes {
            let b = bytes[i];
            v.push(' ');
            v.push(hex_digit_exec((b / 16) as usize));
            v.push(hex_digit_exec((b % 16) as usize));
        } else {
            v.push(' ');
            v.push(' ');
            v.push(' ');
        }
        i = i + 1;
        assert(v@ =~= head + data_hex_region(bytes@, n, i as int));
    }
    v.push(' ');
    v.push('│');
    v.push(' ');
    let ghost head2 = head + data_hex_region(bytes@, n, num_per_line as int) + seq![' ', '│', ' '];
    assert(v@ =~= head2 + data_char_region(bytes@, n, 0));
    let mut j: usize = 0;
    while j < num_per_line
        invariant
            j <= num_per_line,
            n == num_bytes as int,
            num_bytes <= bytes@.len(),
            v@ == head2 + data_char_region(bytes@, n, j as int),
        decreases num_per_line - j,
    {
        if j > 0 && j % 8 == 0 {
            v.push('┆');
        }
        if j < num_bytes {
            let b = bytes[j];
            if b > 31 && b < 127 {
                v.push(b as char);
            } else {
                v.push('·');
            }
        } else {
            v.push(' ');
        }
        j = j + 1;
        assert(v@ =~= head2 + data_char_region(bytes@, n, j as int));
    }
    v.push(' ');
    v.push('│');
    assert(v@ =~= data_row(bytes@, n, offset as int, num_per_line as int));
    chars_to_string(&v)
}

} // verus!
