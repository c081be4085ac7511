//! Rendering a 64-bit identifier as decimal text, for the error messages of
//! the operation surface.

use vstd::prelude::*;
use vstd::string::StringExecFns;

verus! {

/// The character for a single decimal digit value.
pub open spec fn spec_digit(d: u64) -> char
    recommends
        d < 10,
{
    ((d + 48) as u8) as char
}

/// The decimal representation of `v`, most significant digit first, with no
/// leading zeros (a lone `'0'` for zero).
pub open spec fn spec_decimal(v: u64) -> Seq<char>
    decreases v,
{
    if v < 10 {
        seq![spec_digit(v)]
    } else {
        spec_decimal(v / 10).push(spec_digit(v % 10))
    }
}

/// A one-character string slice holding the digit character for `d`.
fn digit_str(d: u64) -> (r: &'static str)
    requires
        d < 10,
    ensures
        r@ == seq![spec_digit(d)],
{
    let r: &'static str = match d {
        0 => "0",
        1 => "1",
        2 => "2",
        3 => "3",
        4 => "4",
        5 => "5",
        6 => "6",
        7 => "7",
        8 => "8",
        _ => "9",
    };
    proof {
        reveal_strlit("0");
        reveal_strlit("1");
        reveal_strlit("2");
        reveal_strlit("3");
        reveal_strlit("4");
        reveal_strlit("5");
        reveal_strlit("6");
        reveal_strlit("7");
        reveal_strlit("8");
        reveal_strlit("9");
        assert(r@ =~= seq![spec_digit(d)]);
    }
    r
}

/// Appends the decimal representation of `v` to `out`.
pub fn push_decimal(out: &mut String, v: u64)
    ensures
        final(out)@ == old(out)@ + spec_decimal(v),
    decreases v,
{
    if v < 10 {
        out.append(digit_str(v));
        assert(final(out)@ =~= old(out)@ + spec_decimal(v));
    } else {
        assert(v / 10 < v && v / 10 >= 1) by (nonlinear_arith)
            requires
                v >= 10,
        ;
        push_decimal(out, v / 10);
        out.append(digit_str(v % 10));
        assert(final(out)@ =~= old(out)@ + spec_decimal(v));
    }
}

} // verus!
