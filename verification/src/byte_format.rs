//! Scaling of raw byte counts into human-readable units.
//!
//! A count is repeatedly divided by 1024 while it is at least 1024 and a
//! larger unit remains in the table `B, KB, MB, GB, TB, PB`; scaling
//! saturates at the largest unit. The scaled value is kept exact to two
//! decimals as a whole number of hundredths of a unit.
use vstd::arithmetic::div_mod::{
    lemma_div_denominator, lemma_div_is_ordered, lemma_fundamental_div_mod, lemma_multiply_divide_lt,
};
use vstd::prelude::*;

verus! {

/// `1024^i`.
pub open spec fn pow1024(i: nat) -> nat
    decreases i,
{
    if i == 0 {
        1
    } else {
        1024 * pow1024((i - 1) as nat)
    }
}

/// The unit index reached from a value already scaled down `i` steps:
/// keep dividing by 1024 while the value is at least 1024 and a larger
/// unit remains.
pub open spec fn scale_steps(scaled: nat, i: nat) -> nat
    decreases scaled,
{
    if scaled < 1024 || i >= 5 {
        i
    } else {
        scale_steps(scaled / 1024, i + 1)
    }
}

/// Index into the unit table of the unit chosen for `bytes`.
pub open spec fn unit_index(bytes: nat) -> nat {
    scale_steps(bytes, 0)
}

/// The value of `bytes` scaled to its chosen unit, in hundredths of a
/// unit, truncated toward zero.
pub open spec fn centi_scaled(bytes: nat) -> nat {
    bytes * 100 / pow1024(unit_index(bytes))
}

/// The label of unit `i` in the fixed table.
pub open spec fn unit_label(i: nat) -> Seq<char> {
    if i == 0 {
        "B"@
    } else if i == 1 {
        "KB"@
    } else if i == 2 {
        "MB"@
    } else if i == 3 {
        "GB"@
    } else if i == 4 {
        "TB"@
    } else {
        "PB"@
    }
}

proof fn lemma_pow1024_values()
    ensures
        pow1024(0) == 1,
        pow1024(1) == 1024,
        pow1024(2) == 1048576,
        pow1024(3) == 1073741824,
        pow1024(4) == 1099511627776,
        pow1024(5) == 1125899906842624,
{
    assert(pow1024(1) == 1024 * pow1024(0));
    assert(pow1024(2) == 1024 * pow1024(1));
    assert(pow1024(3) == 1024 * pow1024(2));
    assert(pow1024(4) == 1024 * pow1024(3));
    assert(pow1024(5) == 1024 * pow1024(4));
}

proof fn lemma_pow1024_bounds(i: nat)
    requires
        i <= 5,
    ensures
        1 <= pow1024(i) <= 1125899906842624,
        i <= 4 ==> pow1024(i) <= 1099511627776,
{
    lemma_pow1024_values();
    if i == 0 {
    } else if i == 1 {
    } else if i == 2 {
    } else if i == 3 {
    } else if i == 4 {
    } else {
    }
}

proof fn lemma_scale_steps(scaled: nat, i: nat)
    requires
        i <= 5,
    ensures
        i <= scale_steps(scaled, i) <= 5,
        scale_steps(scaled, i) < 5 ==> scaled < pow1024(
            (scale_steps(scaled, i) - i + 1) as nat,
        ),
    decreases scaled,
{
    let r = scale_steps(scaled, i);
    if scaled < 1024 || i >= 5 {
        assert(pow1024(1) == 1024 * pow1024(0));
    } else {
        lemma_scale_steps(scaled / 1024, i + 1);
        if r < 5 {
            let k = (r - i) as nat;
            assert(scaled / 1024 < pow1024(k));
            lemma_fundamental_div_mod(scaled as int, 1024);
            assert(scaled == 1024 * (scaled as int / 1024) + scaled as int % 1024);
            assert(1024 * (scaled as int / 1024) <= 1024 * (pow1024(k) - 1))
                by (nonlinear_arith)
                requires
                    scaled as int / 1024 <= pow1024(k) - 1,
            ;
            assert(scaled < 1024 * pow1024(k));
            assert(pow1024(k + 1) == 1024 * pow1024(k));
        }
    }
}

/// Law: for any byte count the chosen unit comes from the fixed
/// six-entry table, and the scaled value stays below 1024 units except
/// at the largest unit, where it may exceed it.
pub proof fn lemma_byte_unit_range(bytes: nat)
    ensures
        unit_index(bytes) <= 5,
        unit_index(bytes) < 5 ==> centi_scaled(bytes) < 102400,
{
    lemma_scale_steps(bytes, 0);
    let i = unit_index(bytes);
    if i < 5 {
        assert(bytes < pow1024(i + 1));
        assert(pow1024(i + 1) == 1024 * pow1024(i));
        lemma_pow1024_bounds(i);
        assert(bytes * 100 < pow1024(i) * 102400) by (nonlinear_arith)
            requires
                bytes < 1024 * pow1024(i),
        ;
        lemma_multiply_divide_lt(bytes as int * 100, pow1024(i) as int, 102400);
    }
}

/// The label of unit `i` as a string slice.
fn unit_str(i: usize) -> (s: &'static str)
    requires
        i <= 5,
    ensures
        s@ == unit_label(i as nat),
{
    match i {
        0 => "B",
        1 => "KB",
        2 => "MB",
        3 => "GB",
        4 => "TB",
        _ => "PB",
    }
}

/// Scales `bytes_count` to its unit: returns the scaled value in
/// hundredths of a unit (truncated toward zero) and the unit's label.
pub fn byte_unit(bytes_count: u64) -> (r: (u64, &'static str))
    ensures
        r.0 == centi_scaled(bytes_count as nat),
        r.1@ == unit_label(unit_index(bytes_count as nat)),
        unit_index(bytes_count as nat) <= 5,
        unit_index(bytes_count as nat) < 5 ==> r.0 < 102400,
{
    proof {
        lemma_byte_unit_range(bytes_count as nat);
    }
    let mut scaled: u64 = bytes_count;
    let mut i: usize = 0;
    let mut divisor: u64 = 1;
    while scaled >= 1024 && i < 5
        invariant
            i <= 5,
            divisor == pow1024(i as nat),
            scaled == bytes_count as nat / pow1024(i as nat),
            scale_steps(scaled as nat, i as nat) == unit_index(bytes_count as nat),
        decreases 5 - i,
    {
        proof {
            lemma_pow1024_bounds(i as nat);
        }
        scaled = scaled / 1024;
        divisor = divisor * 1024;
        i = i + 1;
        proof {
            lemma_div_denominator(bytes_count as int, pow1024((i - 1) as nat) as int, 1024);
            assert(pow1024(i as nat) == 1024 * pow1024((i - 1) as nat));
        }
    }
    proof {
        lemma_pow1024_bounds(i as nat);
        assert(scale_steps(scaled as nat, i as nat) == i as nat);
        lemma_div_is_ordered(
            bytes_count as int * 100,
            u64::MAX as int * 100,
            pow1024(unit_index(bytes_count as nat)) as int,
        );
        if unit_index(bytes_count as nat) == 5 {
            lemma_pow1024_values();
        }
    }
    let wide: u128 = (bytes_count as u128) * 100 / (divisor as u128);
    (wide as u64, unit_str(i))
}

} // verus!
