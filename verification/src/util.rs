use vstd::arithmetic::div_mod::lemma_div_is_ordered;
use vstd::arithmetic::div_mod::lemma_div_multiples_vanish_fancy;
use vstd::arithmetic::div_mod::lemma_fundamental_div_mod;
use vstd::arithmetic::div_mod::lemma_hoist_over_denominator;
use vstd::arithmetic::div_mod::lemma_mod_multiples_vanish;
use vstd::prelude::*;

verus! {

/// Relies on std's `String::push`: appends the given character to the end of
/// the string.
pub assume_specification[ String::push ](s: &mut String, ch: char)
    ensures
        final(s)@ == old(s)@.push(ch),
;

pub open spec fn digit_char(d: int) -> char {
    if d == 0 {
        '0'
    } else if d == 1 {
        '1'
    } else if d == 2 {
        '2'
    } else if d == 3 {
        '3'
    } else if d == 4 {
        '4'
    } else if d == 5 {
        '5'
    } else if d == 6 {
        '6'
    } else if d == 7 {
        '7'
    } else if d == 8 {
        '8'
    } else {
        '9'
    }
}

/// The usual decimal rendering of a natural number, most significant digit
/// first, with no leading zeros (except for the number zero itself).
pub open spec fn spec_decimal(n: nat) -> Seq<char>
    decreases n,
{
    if n < 10 {
        seq![digit_char(n as int)]
    } else {
        spec_decimal(n / 10).push(digit_char((n % 10) as int))
    }
}

/// The byte count of one step of each binary unit: B, KB, MB, GB, TB.
pub open spec fn unit_value(i: int) -> int {
    if i == 0 {
        1
    } else if i == 1 {
        1024
    } else if i == 2 {
        0x100000
    } else if i == 3 {
        0x40000000
    } else {
        0x10000000000
    }
}

pub open spec fn unit_suffix(i: int) -> Seq<char> {
    if i == 0 {
        "B"@
    } else if i == 1 {
        "KB"@
    } else if i == 2 {
        "MB"@
    } else if i == 3 {
        "GB"@
    } else {
        "TB"@
    }
}

/// The largest unit whose scaled value is at least 1, capped at TB.
pub open spec fn unit_index(bytes: u64) -> int {
    if bytes < 1024 {
        0
    } else if bytes < 0x100000 {
        1
    } else if bytes < 0x40000000 {
        2
    } else if bytes < 0x10000000000 {
        3
    } else {
        4
    }
}

/// The byte count scaled to its unit, in tenths, rounded to the nearest;
/// an exact half rounds to the even tenth, as one-decimal float formatting
/// does.
pub open spec fn spec_scaled_tenths(bytes: u64) -> int {
    let u = unit_value(unit_index(bytes));
    let q = (bytes * 10) / u;
    let r = (bytes * 10) % u;
    if 2 * r > u || (2 * r == u && q % 2 == 1) {
        q + 1
    } else {
        q
    }
}

/// What `format_size` returns: "0 B" for zero, else the scaled value with one
/// decimal place, a space, and the unit suffix.
pub open spec fn spec_format_size(bytes: u64) -> Seq<char> {
    if bytes == 0 {
        "0 B"@
    } else {
        let t = spec_scaled_tenths(bytes);
        spec_decimal((t / 10) as nat).push('.').push(digit_char(t % 10)) + " "@ + unit_suffix(
            unit_index(bytes),
        )
    }
}

fn digit_to_char(d: u64) -> (c: char)
    requires
        d < 10,
    ensures
        c == digit_char(d as int),
{
    if d == 0 {
        '0'
    } else if d == 1 {
        '1'
    } else if d == 2 {
        '2'
    } else if d == 3 {
        '3'
    } else if d == 4 {
        '4'
    } else if d == 5 {
        '5'
    } else if d == 6 {
        '6'
    } else if d == 7 {
        '7'
    } else if d == 8 {
        '8'
    } else {
        '9'
    }
}

/// Renders a number in decimal, most significant digit first.
pub fn u64_to_string(n: u64) -> (r: String)
    ensures
        r@ == spec_decimal(n as nat),
    decreases n,
{
    if n < 10 {
        let mut s = String::new();
        s.push(digit_to_char(n));
        s
    } else {
        let mut s = u64_to_string(n / 10);
        s.push(digit_to_char(n % 10));
        s
    }
}

/// The scaled tenths, computed without overflow by splitting the dividend
/// at the unit boundary.
fn scaled_tenths(bytes: u64, unit: u64) -> (t: u64)
    requires
        unit == unit_value(unit_index(bytes)),
        bytes > 0,
    ensures
        t == spec_scaled_tenths(bytes),
{
    let qb = bytes / unit;
    let rb = bytes % unit;
    proof {
        lemma_fundamental_div_mod(bytes as int, unit as int);
        if unit > 1 {
            assert(unit >= 1024);
            assert(qb * 10 + 20 <= u64::MAX) by (nonlinear_arith)
                requires
                    qb * unit + rb == bytes,
                    bytes <= u64::MAX,
                    unit >= 1024,
                    rb >= 0,
                    qb >= 0,
            ;
        }
        lemma_div_is_ordered((rb * 10) as int, 10 * unit - 1, unit as int);
        lemma_div_multiples_vanish_fancy(9, unit as int - 1, unit as int);
        assert((rb * 10) as int / (unit as int) <= 9);
    }
    let q = qb * 10 + (rb * 10) / unit;
    let r = (rb * 10) % unit;
    proof {
        lemma_hoist_over_denominator((rb * 10) as int, (qb * 10) as int, unit as nat);
        lemma_mod_multiples_vanish((qb * 10) as int, (rb * 10) as int, unit as int);
        assert((rb * 10) + unit * (qb * 10) == bytes * 10) by (nonlinear_arith)
            requires
                qb * unit + rb == bytes,
        ;
        assert(q == (bytes * 10) / (unit as int));
        assert(r == (bytes * 10) % (unit as int));
    }
    if 2 * r > unit || (2 * r == unit && q % 2 == 1) {
        q + 1
    } else {
        q
    }
}

/// Renders a byte count with binary units and one decimal place; zero bytes
/// is the special case "0 B".
pub fn format_size(bytes: u64) -> (r: String)
    ensures
        r@ == spec_format_size(bytes),
{
    if bytes == 0 {
        let mut s = String::new();
        s.append("0 B");
        return s;
    }
    let unit: u64 = if bytes < 1024 {
        1
    } else if bytes < 0x100000 {
        1024
    } else if bytes < 0x40000000 {
        0x100000
    } else if bytes < 0x10000000000 {
        0x40000000
    } else {
        0x10000000000
    };
    let suffix: &str = if bytes < 1024 {
        "B"
    } else if bytes < 0x100000 {
        "KB"
    } else if bytes < 0x40000000 {
        "MB"
    } else if bytes < 0x10000000000 {
        "GB"
    } else {
        "TB"
    };
    let t = scaled_tenths(bytes, unit);
    let mut s = u64_to_string(t / 10);
    s.push('.');
    s.push(digit_to_char(t % 10));
    s.append(" ");
    s.append(suffix);
    s
}

} // verus!
