//! Decimal rendering of unsigned integers, for playlist lines and segment
//! names.
use vstd::prelude::*;
use vstd::string::StringExecFns;

verus! {

pub open spec fn digit_char(d: nat) -> char {
    if d == 0 { '0' }
    else if d == 1 { '1' }
    else if d == 2 { '2' }
    else if d == 3 { '3' }
    else if d == 4 { '4' }
    else if d == 5 { '5' }
    else if d == 6 { '6' }
    else if d == 7 { '7' }
    else if d == 8 { '8' }
    else { '9' }
}

/// The decimal digits of `n`, without leading zeros (`0` for zero).
pub open spec fn decimal(n: nat) -> Seq<char>
    decreases n,
{
    if n < 10 {
        seq![digit_char(n)]
    } else {
        decimal(n / 10).push(digit_char(n % 10))
    }
}

/// `n` in exactly `w` digits, with leading zeros.
pub open spec fn padded(n: nat, w: nat) -> Seq<char>
    decreases w,
{
    if w == 0 {
        Seq::empty()
    } else {
        padded(n / 10, (w - 1) as nat).push(digit_char(n % 10))
    }
}

fn digit_str(d: u64) -> (r: &'static str)
    requires
        d < 10,
    ensures
        r@ == seq![digit_char(d as nat)],
{
    proof {
        reveal_strlit("0");
        reveal_strlit("1");
        reveal_strlit("2");
        reveal_strlit("3");
        reveal_strlit("4");
        reveal_strlit("5");
        reveal_strlit("6");
        reveal_strlit("7");
        reveal_strlit("8");
        reveal_strlit("9");
    }
    let r = if d == 0 { "0" }
    else if d == 1 { "1" }
    else if d == 2 { "2" }
    else if d == 3 { "3" }
    else if d == 4 { "4" }
    else if d == 5 { "5" }
    else if d == 6 { "6" }
    else if d == 7 { "7" }
    else if d == 8 { "8" }
    else { "9" };
    assert(r@ =~= seq![digit_char(d as nat)]);
    r
}

/// Appends the decimal digits of `n` to `out`.
pub fn push_decimal(out: &mut String, n: u64)
    ensures
        final(out)@ == old(out)@ + decimal(n as nat),
    decreases n,
{
    if n >= 10 {
        push_decimal(out, n / 10);
    }
    out.append(digit_str(n % 10));
    proof {
        if n >= 10 {
            assert(old(out)@ + decimal(n as nat) =~= old(out)@ + decimal((n / 10) as nat) + seq![digit_char((n % 10) as nat)]);
        } else {
            assert(decimal(n as nat) == seq![digit_char(n as nat)]);
        }
    }
}

/// Appends `n` in exactly `w` digits to `out`.
pub fn push_padded(out: &mut String, n: u64, w: u64)
    ensures
        final(out)@ == old(out)@ + padded(n as nat, w as nat),
    decreases w,
{
    if w > 0 {
        push_padded(out, n / 10, w - 1);
        out.append(digit_str(n % 10));
        assert(old(out)@ + padded(n as nat, w as nat) =~= old(out)@ + padded((n / 10) as nat, (w - 1) as nat) + seq![digit_char((n % 10) as nat)]);
    } else {
        assert(old(out)@ + padded(n as nat, w as nat) =~= old(out)@);
    }
}

} // verus!
