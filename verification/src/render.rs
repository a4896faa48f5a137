use vstd::prelude::*;
use vstd::string::StringExecFns;

use crate::token::Rat;

verus! {

/// The character of one decimal digit value.
pub open spec fn spec_digit_char(v: int) -> char {
    if v == 0 {
        '0'
    } else if v == 1 {
        '1'
    } else if v == 2 {
        '2'
    } else if v == 3 {
        '3'
    } else if v == 4 {
        '4'
    } else if v == 5 {
        '5'
    } else if v == 6 {
        '6'
    } else if v == 7 {
        '7'
    } else if v == 8 {
        '8'
    } else {
        '9'
    }
}

/// The decimal digits of a non-negative integer, most significant first.
pub open spec fn spec_dec_digits(v: nat) -> Seq<char>
    decreases v,
{
    if v < 10 {
        seq![spec_digit_char(v as int)]
    } else {
        spec_dec_digits(v / 10).push(spec_digit_char((v % 10) as int))
    }
}

/// The first digits of the fraction `rem / d`, written after the decimal
/// point by long division: each step emits `(rem*10)/d` and continues with
/// remainder `(rem*10)%d`. The expansion stops where it terminates, and in
/// any case after `fuel` digits.
pub open spec fn spec_frac_digits(rem: nat, d: nat, fuel: nat) -> Seq<char>
    recommends
        d > 0,
        rem < d,
    decreases fuel,
{
    if rem == 0 || fuel == 0 {
        Seq::<char>::empty()
    } else {
        let t = rem * 10;
        seq![spec_digit_char((t / d) as int)] + spec_frac_digits((t % d) as nat, d, (fuel - 1) as nat)
    }
}

/// The decimal rendering of a rational: an optional minus sign, the integer
/// part, and — when the value is not whole — a decimal point and the digits
/// of the fractional part. Every value with a terminating decimal expansion
/// is rendered exactly and without trailing zeros (a positive denominator
/// below 2^63 needs at most 63 fractional digits); a non-terminating
/// expansion is cut off after 64 digits.
pub open spec fn spec_render(r: Rat) -> Seq<char>
    recommends
        r.wf(),
{
    let m = (if r.n < 0 {
        -(r.n as int)
    } else {
        r.n as int
    }) as nat;
    let d = r.d as nat;
    let sign = if r.n < 0 {
        seq!['-']
    } else {
        Seq::<char>::empty()
    };
    let ip = m / d;
    let rem = m % d;
    sign + spec_dec_digits(ip) + (if rem == 0 {
        Seq::<char>::empty()
    } else {
        seq!['.'] + spec_frac_digits(rem, d, 64)
    })
}

/// Append the character of one digit value to `out`.
fn push_digit(out: &mut String, v: u64)
    requires
        v < 10,
    ensures
        final(out)@ == old(out)@.push(spec_digit_char(v as int)),
{
    proof {
        reveal_strlit("0");
        reveal_strlit("1");
        reveal_strlit("2");
        reveal_strlit("3");
        reveal_strlit("4");
        reveal_strlit("5");
        reveal_strlit("6");
        reveal_strlit("7");
        reveal_strlit("8");
        reveal_strlit("9");
    }
    let s: &str = match v {
        0 => "0",
        1 => "1",
        2 => "2",
        3 => "3",
        4 => "4",
        5 => "5",
        6 => "6",
        7 => "7",
        8 => "8",
        _ => "9",
    };
    proof {
        assert(s@ =~= seq![spec_digit_char(v as int)]);
    }
    out.append(s);
    proof {
        assert(out@ =~= old(out)@.push(spec_digit_char(v as int)));
    }
}

/// Append the decimal digits of `v` to `out`, most significant first.
fn push_dec_digits(out: &mut String, v: u64)
    ensures
        final(out)@ == old(out)@ + spec_dec_digits(v as nat),
    decreases v,
{
    if v < 10 {
        push_digit(out, v);
        proof {
            assert(out@ =~= old(out)@ + spec_dec_digits(v as nat));
        }
    } else {
        push_dec_digits(out, v / 10);
        push_digit(out, v % 10);
        proof {
            assert(out@ =~= old(out)@ + spec_dec_digits(v as nat));
        }
    }
}

/// Write a rational as decimal text; follows `spec_render` step for step.
#[verifier::loop_isolation(false)]
pub fn render(r: Rat) -> (s: String)
    requires
        r.wf(),
    ensures
        s@ == spec_render(r),
{
    let mut out = String::new();
    if r.n < 0 {
        proof {
            reveal_strlit("-");
        }
        out.append("-");
    }
    let ghost sign: Seq<char> = if r.n < 0 {
        seq!['-']
    } else {
        Seq::<char>::empty()
    };
    proof {
        assert(out@ =~= sign);
    }
    let m: u64 = if r.n < 0 {
        (-(r.n as i128)) as u64
    } else {
        r.n as u64
    };
    let d: u64 = r.d as u64;
    let ip: u64 = m / d;
    let rem0: u64 = m % d;
    push_dec_digits(&mut out, ip);
    if rem0 == 0 {
        proof {
            assert(out@ =~= spec_render(r));
        }
        return out;
    }
    proof {
        reveal_strlit(".");
    }
    out.append(".");
    let ghost pre: Seq<char> = out@;
    proof {
        assert(pre =~= sign + spec_dec_digits(ip as nat) + seq!['.']);
    }
    let mut rem: u64 = rem0;
    let mut k: u64 = 0;
    while rem != 0 && k < 64
        invariant
            0 <= k <= 64,
            rem < d,
            pre.len() <= out@.len(),
            out@.take(pre.len() as int) == pre,
            spec_frac_digits(rem0 as nat, d as nat, 64) == out@.skip(pre.len() as int)
                + spec_frac_digits(rem as nat, d as nat, (64 - k) as nat),
        decreases 64 - k,
    {
        let t: u128 = (rem as u128) * 10;
        let du: u128 = d as u128;
        proof {
            assert(t / du < 10) by (nonlinear_arith)
                requires
                    du > 0,
                    t < 10 * du,
            ;
        }
        let dg: u64 = (t / du) as u64;
        let ghost out_before = out@;
        let ghost rem_before = rem as nat;
        let ghost fuel_before = (64 - k) as nat;
        rem = (t % du) as u64;
        push_digit(&mut out, dg);
        k = k + 1;
        proof {
            assert(spec_frac_digits(rem_before, d as nat, fuel_before) == seq![
                spec_digit_char(dg as int),
            ] + spec_frac_digits(rem as nat, d as nat, (64 - k) as nat));
            assert(out@.take(pre.len() as int) =~= pre);
            assert(out@.skip(pre.len() as int) =~= out_before.skip(pre.len() as int).push(
                spec_digit_char(dg as int),
            ));
            assert(out_before.skip(pre.len() as int).push(spec_digit_char(dg as int))
                + spec_frac_digits(rem as nat, d as nat, (64 - k) as nat) =~= out_before.skip(
                pre.len() as int,
            ) + spec_frac_digits(rem_before, d as nat, fuel_before));
        }
    }
    proof {
        assert(spec_frac_digits(rem as nat, d as nat, (64 - k) as nat) =~= Seq::<char>::empty());
        assert(out@ =~= out@.take(pre.len() as int) + out@.skip(pre.len() as int));
        assert(out@ =~= spec_render(r));
    }
    out
}

} // verus!
