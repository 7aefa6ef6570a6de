//! Plain-text building blocks for rendered frames: decimal numbers,
//! two-decimal fixed-point numbers, runs of spaces and of bar cells.
use vstd::prelude::*;

verus! {

/// The glyph used for one filled bar cell.
pub open spec fn block_char() -> char {
    '\u{2588}'
}

/// The decimal digit `d` as a character; meaningful for `d < 10`.
pub open spec fn digit_char(d: nat) -> char {
    if d == 0 {
        '0'
    } else if d == 1 {
        '1'
    } else if d == 2 {
        '2'
    } else if d == 3 {
        '3'
    } else if d == 4 {
        '4'
    } else if d == 5 {
        '5'
    } else if d == 6 {
        '6'
    } else if d == 7 {
        '7'
    } else if d == 8 {
        '8'
    } else {
        '9'
    }
}

/// The usual decimal rendering of `n`, most significant digit first,
/// with no leading zeros (except for `n == 0` itself).
pub open spec fn dec_digits(n: nat) -> Seq<char>
    decreases n,
{
    if n < 10 {
        seq![digit_char(n)]
    } else {
        dec_digits(n / 10).push(digit_char(n % 10))
    }
}

/// `c` hundredths rendered as a fixed-point number with two decimals,
/// e.g. 150 hundredths as `1.50`.
pub open spec fn centi_digits(c: nat) -> Seq<char> {
    dec_digits(c / 100) + seq!['.', digit_char(c / 10 % 10), digit_char(c % 10)]
}

/// `n` spaces.
pub open spec fn spaces(n: nat) -> Seq<char> {
    Seq::new(n, |i: int| ' ')
}

/// `n` filled bar cells.
pub open spec fn blocks(n: nat) -> Seq<char> {
    Seq::new(n, |i: int| block_char())
}

/// The decimal digit `d` as a one-character string slice.
fn digit_str(d: u64) -> (s: &'static str)
    requires
        d < 10,
    ensures
        s@ =~= seq![digit_char(d as nat)],
{
    proof {
        reveal_strlit("0");
        reveal_strlit("1");
        reveal_strlit("2");
        reveal_strlit("3");
        reveal_strlit("4");
        reveal_strlit("5");
        reveal_strlit("6");
        reveal_strlit("7");
        reveal_strlit("8");
        reveal_strlit("9");
    }
    match d {
        0 => "0",
        1 => "1",
        2 => "2",
        3 => "3",
        4 => "4",
        5 => "5",
        6 => "6",
        7 => "7",
        8 => "8",
        _ => "9",
    }
}

/// Appends the decimal rendering of `n` to `out`.
pub fn push_u64(out: &mut String, n: u64)
    ensures
        final(out)@ == old(out)@ + dec_digits(n as nat),
    decreases n,
{
    if n < 10 {
        out.append(digit_str(n));
        assert(out@ =~= old(out)@ + dec_digits(n as nat));
    } else {
        push_u64(out, n / 10);
        out.append(digit_str(n % 10));
        assert(out@ =~= old(out)@ + dec_digits(n as nat));
    }
}

/// Appends `c` hundredths as a two-decimal fixed-point number to `out`.
pub fn push_centi(out: &mut String, c: u64)
    ensures
        final(out)@ == old(out)@ + centi_digits(c as nat),
{
    push_u64(out, c / 100);
    proof {
        reveal_strlit(".");
    }
    out.append(".");
    out.append(digit_str(c / 10 % 10));
    out.append(digit_str(c % 100 % 10));
    assert(c % 100 % 10 == c % 10) by (nonlinear_arith);
    assert(out@ =~= old(out)@ + centi_digits(c as nat));
}

/// Appends `n` spaces to `out`.
pub fn push_spaces(out: &mut String, n: usize)
    ensures
        final(out)@ == old(out)@ + spaces(n as nat),
{
    proof {
        reveal_strlit(" ");
    }
    let mut i: usize = 0;
    while i < n
        invariant
            i <= n,
            out@ == old(out)@ + spaces(i as nat),
            " "@ =~= seq![' '],
        decreases n - i,
    {
        out.append(" ");
        i = i + 1;
        assert(out@ =~= old(out)@ + spaces(i as nat));
    }
    assert(out@ =~= old(out)@ + spaces(n as nat));
}

/// Appends `n` filled bar cells to `out`.
pub fn push_blocks(out: &mut String, n: usize)
    ensures
        final(out)@ == old(out)@ + blocks(n as nat),
{
    proof {
        reveal_strlit("\u{2588}");
    }
    let mut i: usize = 0;
    while i < n
        invariant
            i <= n,
            out@ == old(out)@ + blocks(i as nat),
            "\u{2588}"@ =~= seq![block_char()],
        decreases n - i,
    {
        out.append("\u{2588}");
        i = i + 1;
        assert(out@ =~= old(out)@ + blocks(i as nat));
    }
    assert(out@ =~= old(out)@ + blocks(n as nat));
}

} // verus!
