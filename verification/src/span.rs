//! Integer quotients that round toward zero, and the lemmas that relate them.
use vstd::prelude::*;
use vstd::arithmetic::div_mod::{lemma_div_denominator, lemma_fundamental_div_mod_converse, lemma_hoist_over_denominator};

verus! {

/// `a / b` rounded toward zero, which is what Rust's `/` on integers computes.
pub open spec fn div_toward_zero(a: int, b: int) -> int {
    if a >= 0 {
        a / b
    } else {
        -((-a) / b)
    }
}

/// The quotient by `b` times `b` lies between zero and `y`, less than `b` away from `y`.
pub proof fn lemma_div_toward_zero_bounds(y: int, b: int)
    requires
        b > 0,
    ensures
        y >= 0 ==> 0 <= div_toward_zero(y, b) && 0 <= b * div_toward_zero(y, b) <= y < b * div_toward_zero(y, b) + b,
        y < 0 ==> div_toward_zero(y, b) <= 0 && b * div_toward_zero(y, b) - b < y <= b * div_toward_zero(y, b) <= 0,
{
    if y >= 0 {
        assert(0 <= y / b && 0 <= b * (y / b) <= y < b * (y / b) + b) by (nonlinear_arith)
            requires y >= 0, b > 0;
    } else {
        let z = -y;
        assert(0 <= z / b && 0 <= b * (z / b) <= z < b * (z / b) + b) by (nonlinear_arith)
            requires z > 0, b > 0;
        assert(b * div_toward_zero(y, b) == -(b * (z / b))) by (nonlinear_arith)
            requires div_toward_zero(y, b) == -(z / b);
    }
}

/// Two quotients toward zero in a row are one quotient by the product.
pub proof fn lemma_div_toward_zero_nested(t: int, a: int, b: int)
    requires
        a > 0,
        b > 0,
    ensures
        div_toward_zero(div_toward_zero(t, a), b) == div_toward_zero(t, a * b),
{
    if t >= 0 {
        lemma_div_denominator(t, a, b);
        assert(t / a >= 0) by (nonlinear_arith)
            requires t >= 0, a > 0;
    } else {
        let u = -t;
        lemma_div_denominator(u, a, b);
        assert(u / a >= 0) by (nonlinear_arith)
            requires u >= 0, a > 0;
        if u / a == 0 {
            assert((u / a) / b == 0);
        }
    }
}

/// The whole seconds and the nanoseconds of a span recombine into its quotient
/// by a thousand of its subdivisions: `t / d` toward zero is `s * (10^9 / d)` plus
/// the remainder's quotient, where `s` is `t / 10^9` toward zero.
pub proof fn lemma_div_toward_zero_split(t: int, s: int, r: int)
    requires
        s == div_toward_zero(t, 1_000_000_000),
        r == t - s * 1_000_000_000,
    ensures
        div_toward_zero(t, 1_000_000) == s * 1000 + div_toward_zero(r, 1_000_000),
{
    lemma_div_toward_zero_bounds(t, 1_000_000_000);
    if t >= 0 {
        assert(r >= 0);
        lemma_hoist_over_denominator(r, s * 1000, 1_000_000);
    } else {
        assert(r <= 0);
        lemma_hoist_over_denominator(-r, -s * 1000, 1_000_000);
        assert(-r + (-s * 1000) * 1_000_000 == -t);
        if r == 0 {
            assert(0int / 1_000_000 == 0);
        }
    }
}

/// A nanosecond count written as `secs` seconds and `0 <= nanos < 10^9` nanoseconds
/// has `secs` whole seconds, plus one where it is negative and has a fraction.
pub proof fn lemma_whole_seconds(secs: int, nanos: int)
    requires
        0 <= nanos < 1_000_000_000,
    ensures
        div_toward_zero(secs * 1_000_000_000 + nanos, 1_000_000_000)
            == (if secs < 0 && nanos > 0 { secs + 1 } else { secs }),
{
    let t = secs * 1_000_000_000 + nanos;
    if secs >= 0 {
        lemma_fundamental_div_mod_converse(t, 1_000_000_000, secs, nanos);
    } else if nanos > 0 {
        lemma_fundamental_div_mod_converse(-t, 1_000_000_000, -secs - 1, 1_000_000_000 - nanos);
    } else {
        lemma_fundamental_div_mod_converse(-t, 1_000_000_000, -secs, 0);
    }
}

} // verus!
