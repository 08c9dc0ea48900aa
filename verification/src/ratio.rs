use vstd::prelude::*;
use vstd::arithmetic::div_mod::{
    lemma_div_is_ordered, lemma_div_multiples_vanish, lemma_div_pos_is_pos,
    lemma_fundamental_div_mod,
};

verus! {

/// An exact fraction in `[0, 1]`, used for mutation rates, survival and
/// growth fractions, and selection pressure. A value outside `[0, 1]`
/// (numerator above denominator, or denominator zero) is rejected at
/// construction.
#[derive(Clone, Copy, Debug, PartialEq, Eq, Structural)]
pub struct Ratio {
    pub num: u64,
    pub den: u64,
}

impl Ratio {
    /// A positive denominator no smaller than the numerator: the fraction
    /// lies in `[0, 1]`.
    pub open spec fn valid(&self) -> bool {
        1 <= self.den && self.num <= self.den
    }

    /// The fraction `num / den`, or `None` when it does not lie in
    /// `[0, 1]`.
    pub fn new(num: u64, den: u64) -> (r: Option<Ratio>)
        ensures
            den >= 1 && num <= den ==> r == Some(Ratio { num, den }),
            !(den >= 1 && num <= den) ==> r is None,
    {
        if den >= 1 && num <= den {
            Some(Ratio { num, den })
        } else {
            None
        }
    }
}

/// `n * num / den`, rounded to the nearest integer with halves rounded up:
/// the exact form of rounding a scaled count.
pub open spec fn round_mul(n: int, num: int, den: int) -> int {
    let p = n * num;
    if 2 * (p % den) >= den {
        p / den + 1
    } else {
        p / den
    }
}

/// Rounding a count scaled by a fraction in `[0, 1]` never exceeds the
/// count and never goes negative.
pub proof fn lemma_round_mul_le(n: int, num: int, den: int)
    requires
        0 <= n,
        0 <= num <= den,
        1 <= den,
    ensures
        0 <= round_mul(n, num, den) <= n,
{
    assert(0 <= n * num && n * num <= n * den) by (nonlinear_arith)
        requires
            0 <= n,
            0 <= num <= den;
    lemma_div_pos_is_pos(n * num, den);
    lemma_div_is_ordered(n * num, n * den, den);
    lemma_div_multiples_vanish(n, den);
    assert(n * den == den * n) by (nonlinear_arith);
    lemma_fundamental_div_mod(n * num, den);
    if 2 * ((n * num) % den) >= den {
        assert((n * num) / den < n) by (nonlinear_arith)
            requires
                den * ((n * num) / den) + (n * num) % den == n * num,
                (n * num) % den >= 1,
                n * num <= n * den,
                n * den == den * n,
                1 <= den;
    }
}

/// Rounding a scaled count is monotone in the count.
pub proof fn lemma_round_mul_monotone(n1: int, n2: int, num: int, den: int)
    requires
        0 <= n1 <= n2,
        0 <= num,
        1 <= den,
    ensures
        round_mul(n1, num, den) <= round_mul(n2, num, den),
{
    assert(0 <= n1 * num && n1 * num <= n2 * num) by (nonlinear_arith)
        requires
            0 <= n1 <= n2,
            0 <= num;
    lemma_div_is_ordered(n1 * num, n2 * num, den);
    lemma_fundamental_div_mod(n1 * num, den);
    lemma_fundamental_div_mod(n2 * num, den);
    if (n1 * num) / den == (n2 * num) / den {
        assert((n1 * num) % den <= (n2 * num) % den);
    }
}

/// Compute `round(n * q)` exactly, in wide intermediate arithmetic.
pub fn round_mul_usize(n: usize, q: Ratio) -> (r: usize)
    requires
        q.valid(),
    ensures
        r == round_mul(n as int, q.num as int, q.den as int),
        r <= n,
{
    proof {
        lemma_round_mul_le(n as int, q.num as int, q.den as int);
        assert((n as u128) * (q.num as u128) == (n as int) * (q.num as int)) by (nonlinear_arith)
            requires
                n as u128 == n as int,
                q.num as u128 == q.num as int,
                n <= 0xffff_ffff_ffff_ffff,
                q.num <= 0xffff_ffff_ffff_ffff;
        assert((n as u128) * (q.num as u128) <= 0xffff_ffff_ffff_ffff_ffff_ffff_ffff_ffff) by (nonlinear_arith)
            requires
                (n as u128) <= 0xffff_ffff_ffff_ffff,
                (q.num as u128) <= 0xffff_ffff_ffff_ffff;
    }
    let p: u128 = (n as u128) * (q.num as u128);
    let d: u128 = q.den as u128;
    let quotient: u128 = p / d;
    let rem: u128 = p % d;
    if 2 * rem >= d {
        (quotient + 1) as usize
    } else {
        quotient as usize
    }
}

} // verus!
