use vstd::prelude::*;

verus! {

/// The uppercase hexadecimal digit for a value below sixteen.
pub open spec fn hex_digit(d: int) -> char
    recommends
        0 <= d < 16,
{
    if d == 0 {
        '0'
    } else if d == 1 {
        '1'
    } else if d == 2 {
        '2'
    } else if d == 3 {
        '3'
    } else if d == 4 {
        '4'
    } else if d == 5 {
        '5'
    } else if d == 6 {
        '6'
    } else if d == 7 {
        '7'
    } else if d == 8 {
        '8'
    } else if d == 9 {
        '9'
    } else if d == 10 {
        'A'
    } else if d == 11 {
        'B'
    } else if d == 12 {
        'C'
    } else if d == 13 {
        'D'
    } else if d == 14 {
        'E'
    } else {
        'F'
    }
}

/// The digits of `n` in uppercase hexadecimal, most significant first, with
/// no leading zero; the empty sequence for zero.
pub open spec fn hex_digits(n: int) -> Seq<char>
    decreases n,
{
    if n <= 0 {
        Seq::empty()
    } else {
        hex_digits(n / 16) + seq![hex_digit(n % 16)]
    }
}

/// The usual hexadecimal rendering of `n`: a single `'0'` for zero, otherwise
/// the digits of `n` with no leading zero.
pub open spec fn hex_rep(n: int) -> Seq<char> {
    if n == 0 {
        seq!['0']
    } else {
        hex_digits(n)
    }
}

pub(crate) fn hex_digit_exec(d: usize) -> (c: char)
    requires
        d < 16,
    ensures
        c == hex_digit(d as int),
{
    match d {
        0 => '0',
        1 => '1',
        2 => '2',
        3 => '3',
        4 => '4',
        5 => '5',
        6 => '6',
        7 => '7',
        8 => '8',
        9 => '9',
        10 => 'A',
        11 => 'B',
        12 => 'C',
        13 => 'D',
        14 => 'E',
        _ => 'F',
    }
}

fn push_hex_digits(n: usize, v: &mut Vec<char>)
    ensures
        final(v)@ == old(v)@ + hex_digits(n as int),
    decreases n,
{
    if n == 0 {
        assert(v@ =~= old(v)@ + hex_digits(0));
    } else {
        push_hex_digits(n / 16, v);
        let d = hex_digit_exec(n % 16);
        v.push(d);
        assert(v@ =~= old(v)@ + hex_digits(n as int));
    }
}

/// The characters of `n` written in uppercase hexadecimal.
pub fn hex_chars(n: usize) -> (v: Vec<char>)
    ensures
        v@ == hex_rep(n as int),
{
    let mut v: Vec<char> = Vec::new();
    if n == 0 {
        v.push('0');
        assert(v@ =~= seq!['0']);
    } else {
        push_hex_digits(n, &mut v);
        assert(v@ =~= hex_digits(n as int));
    }
    v
}

} // verus!
