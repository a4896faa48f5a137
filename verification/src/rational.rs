use vstd::prelude::*;

use crate::errors::CalcError;
use crate::token::Rat;

verus! {

/// `x` is representable as an `i64`.
pub open spec fn fits_i64(x: int) -> bool {
    i64::MIN <= x <= i64::MAX
}

/// Exact sum of `a` and `b`: `(a.n*b.d + b.n*a.d) / (a.d*b.d)`, or an
/// overflow error as soon as one of the products or the sum leaves the
/// 64-bit range.
pub open spec fn spec_add(a: Rat, b: Rat) -> Result<Rat, CalcError> {
    let p1 = a.n * b.d;
    let p2 = b.n * a.d;
    let dd = a.d * b.d;
    if !fits_i64(p1) {
        Err(CalcError::Overflow)
    } else if !fits_i64(p2) {
        Err(CalcError::Overflow)
    } else if !fits_i64(p1 + p2) {
        Err(CalcError::Overflow)
    } else if !fits_i64(dd) {
        Err(CalcError::Overflow)
    } else {
        Ok(Rat { n: (p1 + p2) as i64, d: dd as i64 })
    }
}

/// Exact difference of `a` and `b`: `(a.n*b.d - b.n*a.d) / (a.d*b.d)`.
pub open spec fn spec_sub(a: Rat, b: Rat) -> Result<Rat, CalcError> {
    let p1 = a.n * b.d;
    let p2 = b.n * a.d;
    let dd = a.d * b.d;
    if !fits_i64(p1) {
        Err(CalcError::Overflow)
    } else if !fits_i64(p2) {
        Err(CalcError::Overflow)
    } else if !fits_i64(p1 - p2) {
        Err(CalcError::Overflow)
    } else if !fits_i64(dd) {
        Err(CalcError::Overflow)
    } else {
        Ok(Rat { n: (p1 - p2) as i64, d: dd as i64 })
    }
}

/// Exact product of `a` and `b`: `(a.n*b.n) / (a.d*b.d)`.
pub open spec fn spec_mul(a: Rat, b: Rat) -> Result<Rat, CalcError> {
    let nn = a.n * b.n;
    let dd = a.d * b.d;
    if !fits_i64(nn) {
        Err(CalcError::Overflow)
    } else if !fits_i64(dd) {
        Err(CalcError::Overflow)
    } else {
        Ok(Rat { n: nn as i64, d: dd as i64 })
    }
}

/// Exact quotient of `a` and `b`: `(a.n*b.d) / (a.d*b.n)`, with the sign
/// moved into the numerator so the denominator stays positive. A divisor
/// whose value is zero is a division-by-zero error.
pub open spec fn spec_div(a: Rat, b: Rat) -> Result<Rat, CalcError> {
    if b.n == 0 {
        Err(CalcError::DivisionByZero)
    } else {
        let p1 = a.n * b.d;
        let p2 = a.d * b.n;
        if !fits_i64(p1) {
            Err(CalcError::Overflow)
        } else if !fits_i64(p2) {
            Err(CalcError::Overflow)
        } else if b.n < 0 {
            if !fits_i64(-p1) {
                Err(CalcError::Overflow)
            } else if !fits_i64(-p2) {
                Err(CalcError::Overflow)
            } else {
                Ok(Rat { n: (-p1) as i64, d: (-p2) as i64 })
            }
        } else {
            Ok(Rat { n: p1 as i64, d: p2 as i64 })
        }
    }
}

/// `base` raised to the `k`-th power by repeated multiplication, with an
/// overflow error as soon as a partial product leaves the 64-bit range.
pub open spec fn spec_pow_acc(base: int, k: nat) -> Result<int, CalcError>
    decreases k,
{
    if k == 0 {
        Ok(1)
    } else {
        match spec_pow_acc(base, (k - 1) as nat) {
            Ok(p) => if !fits_i64(p * base) {
                Err(CalcError::Overflow)
            } else {
                Ok(p * base)
            },
            Err(e) => Err(e),
        }
    }
}

/// Exact power `a ^ b`. The exponent must denote a whole number; a negative
/// exponent inverts the base first (division by zero when the base is zero).
/// For a base other than 0, 1 and -1 an exponent magnitude of 63 or more is
/// reported as overflow outright: some component of the base has magnitude
/// at least 2, so a 64-bit numerator or denominator cannot hold the result.
pub open spec fn spec_pow(a: Rat, b: Rat) -> Result<Rat, CalcError> {
    let em = if b.n < 0 {
        -(b.n as int)
    } else {
        b.n as int
    };
    if em % (b.d as int) != 0 {
        Err(CalcError::NonIntegerExponent)
    } else {
        let k = em / (b.d as int);
        let neg = b.n < 0;
        if a.n == 0 {
            if k == 0 {
                Ok(Rat { n: 1, d: 1 })
            } else if !neg {
                Ok(Rat { n: 0, d: 1 })
            } else {
                Err(CalcError::DivisionByZero)
            }
        } else if a.n == a.d {
            Ok(Rat { n: 1, d: 1 })
        } else if a.n == -(a.d as int) {
            if k % 2 == 0 {
                Ok(Rat { n: 1, d: 1 })
            } else {
                Ok(Rat { n: -1i64, d: 1 })
            }
        } else if k >= 63 {
            Err(CalcError::Overflow)
        } else if neg && a.n < 0 && !fits_i64(-(a.n as int)) {
            Err(CalcError::Overflow)
        } else {
            let bn = if neg {
                if a.n < 0 {
                    -(a.d as int)
                } else {
                    a.d as int
                }
            } else {
                a.n as int
            };
            let bd = if neg {
                if a.n < 0 {
                    -(a.n as int)
                } else {
                    a.n as int
                }
            } else {
                a.d as int
            };
            match spec_pow_acc(bn, k as nat) {
                Err(e1) => Err(e1),
                Ok(pn) => match spec_pow_acc(bd, k as nat) {
                    Err(e2) => Err(e2),
                    Ok(pd) => Ok(Rat { n: pn as i64, d: pd as i64 }),
                },
            }
        }
    }
}

/// A power of a positive base stays positive.
proof fn lemma_pow_acc_pos(base: int, k: nat)
    requires
        base > 0,
        spec_pow_acc(base, k) is Ok,
    ensures
        spec_pow_acc(base, k)->Ok_0 > 0,
    decreases k,
{
    if k > 0 {
        lemma_pow_acc_pos(base, (k - 1) as nat);
        let p = spec_pow_acc(base, (k - 1) as nat)->Ok_0;
        assert(p * base > 0) by (nonlinear_arith)
            requires
                p > 0,
                base > 0,
        ;
    }
}

/// Once a partial power has failed, every longer power fails the same way.
proof fn lemma_pow_acc_err(base: int, j: nat, k: nat, e: CalcError)
    requires
        j <= k,
        spec_pow_acc(base, j) == Err::<int, CalcError>(e),
    ensures
        spec_pow_acc(base, k) == Err::<int, CalcError>(e),
    decreases k,
{
    if k > j {
        lemma_pow_acc_err(base, j, (k - 1) as nat, e);
    }
}

/// Exact sum, by the checked machine steps that `spec_add` mirrors.
pub fn rat_add(a: Rat, b: Rat) -> (r: Result<Rat, CalcError>)
    requires
        a.wf(),
        b.wf(),
    ensures
        r == spec_add(a, b),
        r matches Ok(v) ==> v.wf(),
{
    let p1 = match a.n.checked_mul(b.d) {
        Some(x) => x,
        None => {
            return Err(CalcError::Overflow);
        },
    };
    let p2 = match b.n.checked_mul(a.d) {
        Some(x) => x,
        None => {
            return Err(CalcError::Overflow);
        },
    };
    let nn = match p1.checked_add(p2) {
        Some(x) => x,
        None => {
            return Err(CalcError::Overflow);
        },
    };
    let dd = match a.d.checked_mul(b.d) {
        Some(x) => x,
        None => {
            return Err(CalcError::Overflow);
        },
    };
    proof {
        assert(dd > 0) by (nonlinear_arith)
            requires
                a.d > 0,
                b.d > 0,
                dd == a.d * b.d,
        ;
    }
    Ok(Rat { n: nn, d: dd })
}

/// Exact difference, by the checked machine steps that `spec_sub` mirrors.
pub fn rat_sub(a: Rat, b: Rat) -> (r: Result<Rat, CalcError>)
    requires
        a.wf(),
        b.wf(),
    ensures
        r == spec_sub(a, b),
        r matches Ok(v) ==> v.wf(),
{
    let p1 = match a.n.checked_mul(b.d) {
        Some(x) => x,
        None => {
            return Err(CalcError::Overflow);
        },
    };
    let p2 = match b.n.checked_mul(a.d) {
        Some(x) => x,
        None => {
            return Err(CalcError::Overflow);
        },
    };
    let nn = match p1.checked_sub(p2) {
        Some(x) => x,
        None => {
            return Err(CalcError::Overflow);
        },
    };
    let dd = match a.d.checked_mul(b.d) {
        Some(x) => x,
        None => {
            return Err(CalcError::Overflow);
        },
    };
    proof {
        assert(dd > 0) by (nonlinear_arith)
            requires
                a.d > 0,
                b.d > 0,
                dd == a.d * b.d,
        ;
    }
    Ok(Rat { n: nn, d: dd })
}

/// Exact product, by the checked machine steps that `spec_mul` mirrors.
pub fn rat_mul(a: Rat, b: Rat) -> (r: Result<Rat, CalcError>)
    requires
        a.wf(),
        b.wf(),
    ensures
        r == spec_mul(a, b),
        r matches Ok(v) ==> v.wf(),
{
    let nn = match a.n.checked_mul(b.n) {
        Some(x) => x,
        None => {
            return Err(CalcError::Overflow);
        },
    };
    let dd = match a.d.checked_mul(b.d) {
        Some(x) => x,
        None => {
            return Err(CalcError::Overflow);
        },
    };
    proof {
        assert(dd > 0) by (nonlinear_arith)
            requires
                a.d > 0,
                b.d > 0,
                dd == a.d * b.d,
        ;
    }
    Ok(Rat { n: nn, d: dd })
}

/// Exact quotient, by the checked machine steps that `spec_div` mirrors.
pub fn rat_div(a: Rat, b: Rat) -> (r: Result<Rat, CalcError>)
    requires
        a.wf(),
        b.wf(),
    ensures
        r == spec_div(a, b),
        r matches Ok(v) ==> v.wf(),
{
    if b.n == 0 {
        return Err(CalcError::DivisionByZero);
    }
    let p1 = match a.n.checked_mul(b.d) {
        Some(x) => x,
        None => {
            return Err(CalcError::Overflow);
        },
    };
    let p2 = match a.d.checked_mul(b.n) {
        Some(x) => x,
        None => {
            return Err(CalcError::Overflow);
        },
    };
    if b.n < 0 {
        let nn = match 0i64.checked_sub(p1) {
            Some(x) => x,
            None => {
                return Err(CalcError::Overflow);
            },
        };
        let dd = match 0i64.checked_sub(p2) {
            Some(x) => x,
            None => {
                return Err(CalcError::Overflow);
            },
        };
        proof {
            assert(p2 < 0) by (nonlinear_arith)
                requires
                    a.d > 0,
                    b.n < 0,
                    p2 == a.d * b.n,
            ;
        }
        Ok(Rat { n: nn, d: dd })
    } else {
        proof {
            assert(p2 > 0) by (nonlinear_arith)
                requires
                    a.d > 0,
                    b.n > 0,
                    p2 == a.d * b.n,
            ;
        }
        Ok(Rat { n: p1, d: p2 })
    }
}

/// `base` to the `k`-th power, by the checked multiplications that
/// `spec_pow_acc` mirrors.
fn pow_acc(base: i64, k: u64) -> (r: Result<i64, CalcError>)
    ensures
        r matches Ok(v) ==> spec_pow_acc(base as int, k as nat) == Ok::<int, CalcError>(v as int),
        r matches Err(e) ==> spec_pow_acc(base as int, k as nat) == Err::<int, CalcError>(e),
{
    let mut acc: i64 = 1;
    let mut i: u64 = 0;
    while i < k
        invariant
            0 <= i <= k,
            spec_pow_acc(base as int, i as nat) == Ok::<int, CalcError>(acc as int),
        decreases k - i,
    {
        acc = match acc.checked_mul(base) {
            Some(x) => x,
            None => {
                proof {
                    assert(spec_pow_acc(base as int, (i + 1) as nat) == Err::<int, CalcError>(
                        CalcError::Overflow,
                    ));
                    lemma_pow_acc_err(base as int, (i + 1) as nat, k as nat, CalcError::Overflow);
                }
                return Err(CalcError::Overflow);
            },
        };
        i = i + 1;
    }
    Ok(acc)
}

/// Exact power, by the checked machine steps that `spec_pow` mirrors.
pub fn rat_pow(a: Rat, b: Rat) -> (r: Result<Rat, CalcError>)
    requires
        a.wf(),
        b.wf(),
    ensures
        r == spec_pow(a, b),
        r matches Ok(v) ==> v.wf(),
{
    let em: u64 = if b.n < 0 {
        (-(b.n as i128)) as u64
    } else {
        b.n as u64
    };
    let bd: u64 = b.d as u64;
    if em % bd != 0 {
        return Err(CalcError::NonIntegerExponent);
    }
    let k: u64 = em / bd;
    let neg = b.n < 0;
    if a.n == 0 {
        if k == 0 {
            return Ok(Rat { n: 1, d: 1 });
        } else if !neg {
            return Ok(Rat { n: 0, d: 1 });
        } else {
            return Err(CalcError::DivisionByZero);
        }
    }
    if a.n == a.d {
        return Ok(Rat { n: 1, d: 1 });
    }
    if a.n == -a.d {
        if k % 2 == 0 {
            return Ok(Rat { n: 1, d: 1 });
        } else {
            return Ok(Rat { n: -1, d: 1 });
        }
    }
    if k >= 63 {
        return Err(CalcError::Overflow);
    }
    let base_n: i64;
    let base_d: i64;
    if neg {
        if a.n < 0 {
            base_n = -a.d;
            base_d = match 0i64.checked_sub(a.n) {
                Some(x) => x,
                None => {
                    return Err(CalcError::Overflow);
                },
            };
        } else {
            base_n = a.d;
            base_d = a.n;
        }
    } else {
        base_n = a.n;
        base_d = a.d;
    }
    let pn = match pow_acc(base_n, k) {
        Ok(x) => x,
        Err(e) => {
            return Err(e);
        },
    };
    let pd = match pow_acc(base_d, k) {
        Ok(x) => x,
        Err(e) => {
            return Err(e);
        },
    };
    proof {
        lemma_pow_acc_pos(base_d as int, k as nat);
    }
    Ok(Rat { n: pn, d: pd })
}

} // verus!
