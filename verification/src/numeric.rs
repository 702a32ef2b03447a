//! Integer arithmetic for the size estimates that scale a count by a
//! quarter: the count is first rounded to 24 significant bits (the precision
//! of a single-precision number, ties to even), then scaled exactly, and the
//! result is cut back to an integer, saturating at `usize::MAX`.
use vstd::prelude::*;

verus! {

/// The number of binary digits of `n` (zero for zero).
pub open spec fn bit_len(n: nat) -> nat
    decreases n,
{
    if n == 0 {
        0
    } else {
        1 + bit_len(n / 2)
    }
}

/// Two to the power `k`.
pub open spec fn pow2(k: nat) -> nat
    decreases k,
{
    if k == 0 {
        1
    } else {
        2 * pow2((k - 1) as nat)
    }
}

/// `n` rounded to 24 significant bits, halfway cases to an even multiple.
pub open spec fn round_24(n: nat) -> nat {
    if bit_len(n) <= 24 {
        n
    } else {
        let p = pow2((bit_len(n) - 24) as nat);
        let q = n / p;
        let r = n % p;
        if r * 2 > p || (r * 2 == p && q % 2 == 1) {
            (q + 1) * p
        } else {
            q * p
        }
    }
}

/// `n` capped at `usize::MAX`.
pub open spec fn saturate(n: nat) -> nat {
    if n > usize::MAX {
        usize::MAX as nat
    } else {
        n
    }
}

/// A positive number lies between the powers of two of its bit length.
pub proof fn lemma_bit_len_bounds(n: nat)
    requires
        n > 0,
    ensures
        bit_len(n) >= 1,
        pow2((bit_len(n) - 1) as nat) <= n < pow2(bit_len(n)),
    decreases n,
{
    let b = bit_len(n / 2);
    assert(bit_len(n) == 1 + b);
    assert(pow2(bit_len(n)) == 2 * pow2(b));
    if n / 2 > 0 {
        lemma_bit_len_bounds(n / 2);
        assert(pow2(b) == 2 * pow2((b - 1) as nat));
    } else {
        assert(pow2(1) == 2 * pow2(0));
    }
}

/// A number has no more binary digits than its value.
pub proof fn lemma_bit_len_le(n: nat)
    ensures
        bit_len(n) <= n,
    decreases n,
{
    if n > 0 {
        lemma_bit_len_le(n / 2);
    }
}

/// Powers of two are positive.
pub proof fn lemma_pow2_pos(k: nat)
    ensures
        pow2(k) >= 1,
    decreases k,
{
    if k > 0 {
        lemma_pow2_pos((k - 1) as nat);
    }
}

/// Powers of two grow with the exponent.
pub proof fn lemma_pow2_monotone(a: nat, b: nat)
    requires
        a <= b,
    ensures
        pow2(a) <= pow2(b),
        pow2(a) >= 1,
    decreases b,
{
    lemma_pow2_pos(a);
    if b > a {
        lemma_pow2_monotone(a, (b - 1) as nat);
    }
}

/// A larger number has no fewer binary digits.
pub proof fn lemma_bit_len_monotone(a: nat, b: nat)
    requires
        a <= b,
    ensures
        bit_len(a) <= bit_len(b),
    decreases b,
{
    if a > 0 {
        lemma_bit_len_monotone(a / 2, b / 2);
    }
}

/// Exponents add when powers of two multiply.
pub proof fn lemma_pow2_add(x: nat, y: nat)
    ensures
        pow2(x + y) == pow2(x) * pow2(y),
    decreases x,
{
    if x == 0 {
        assert(pow2(0) == 1);
        assert(x + y == y);
    } else {
        lemma_pow2_add((x - 1) as nat, y);
        assert(pow2(x + y) == 2 * pow2(((x - 1) + y) as nat));
        let a = pow2((x - 1) as nat);
        let b = pow2(y);
        assert(pow2(x) == 2 * a);
        assert(2 * (a * b) == (2 * a) * b) by (nonlinear_arith);
    }
}

/// Rounding a positive number to 24 significant bits keeps it between the
/// powers of two of its bit length.
pub proof fn lemma_round_24_range(n: nat)
    requires
        n > 0,
    ensures
        pow2((bit_len(n) - 1) as nat) <= round_24(n) <= pow2(bit_len(n)),
{
    lemma_bit_len_bounds(n);
    let l = bit_len(n);
    if l > 24 {
        let e = (l - 24) as nat;
        let p = pow2(e);
        lemma_pow2_pos(e);
        lemma_pow2_add(23, e);
        lemma_pow2_add(24, e);
        assert((23 + e) as nat == (l - 1) as nat);
        assert((24 + e) as nat == l);
        let lo = pow2(23);
        let hi = pow2(24);
        assert(lo == 0x80_0000 && hi == 0x100_0000) by {
            reveal_with_fuel(pow2, 25);
        }
        let q = n / p;
        let r = n % p;
        assert(q * p + r == n && 0 <= r < p) by (nonlinear_arith)
            requires
                q == n / p,
                r == n % p,
                p > 0,
        ;
        assert(lo <= q < hi) by (nonlinear_arith)
            requires
                lo * p <= n < hi * p,
                q * p + r == n,
                0 <= r < p,
                p > 0,
        ;
        assert(lo * p <= q * p && (q + 1) * p <= hi * p && q * p <= (q + 1) * p) by (nonlinear_arith)
            requires
                lo <= q < hi,
                p > 0,
        ;
        assert(pow2((l - 1) as nat) == lo * p);
        assert(pow2(l) == hi * p);
        assert(round_24(n) == q * p || round_24(n) == (q + 1) * p);
    }
}

/// Rounding to 24 significant bits keeps the order of numbers.
pub proof fn lemma_round_24_monotone(a: nat, b: nat)
    requires
        a <= b,
    ensures
        round_24(a) <= round_24(b),
{
    if a == 0 {
        return;
    }
    lemma_bit_len_monotone(a, b);
    lemma_round_24_range(a);
    lemma_round_24_range(b);
    let la = bit_len(a);
    let lb = bit_len(b);
    if la < lb {
        lemma_pow2_monotone(la, (lb - 1) as nat);
        assert(round_24(a) <= pow2(la) <= pow2((lb - 1) as nat) <= round_24(b));
    } else if la <= 24 {
        assert(la == lb);
        assert(round_24(a) == a && round_24(b) == b);
    } else {
        assert(la == lb);
        let p = pow2((la - 24) as nat);
        lemma_pow2_pos((la - 24) as nat);
        let qa = a / p;
        let ra = a % p;
        let qb = b / p;
        let rb = b % p;
        assert(qa * p + ra == a && 0 <= ra < p && qb * p + rb == b && 0 <= rb < p) by (nonlinear_arith)
            requires
                qa == a / p,
                ra == a % p,
                qb == b / p,
                rb == b % p,
                p > 0,
        ;
        assert(qa <= qb) by (nonlinear_arith)
            requires
                qa * p + ra <= qb * p + rb,
                0 <= ra < p,
                0 <= rb < p,
                p > 0,
        ;
        assert(qa * p <= (qa + 1) * p && qb * p <= (qb + 1) * p) by (nonlinear_arith)
            requires
                p > 0,
        ;
        let up_a = ra * 2 > p || (ra * 2 == p && qa % 2 == 1);
        let up_b = rb * 2 > p || (rb * 2 == p && qb % 2 == 1);
        assert(round_24(a) == if up_a { (qa + 1) * p } else { qa * p });
        assert(round_24(b) == if up_b { (qb + 1) * p } else { qb * p });
        if qa < qb {
            assert((qa + 1) * p <= qb * p) by (nonlinear_arith)
                requires
                    qa < qb,
                    p > 0,
            ;
        } else {
            assert(qa == qb);
            assert(ra <= rb);
            assert(up_a ==> up_b);
        }
    }
}

/// `round_24(n)` for `n` below 2^100.
pub fn round_to_24_bits(n: u128) -> (r: u128)
    requires
        n < 0x10_0000_0000_0000_0000_0000_0000,
    ensures
        r == round_24(n as nat),
        r <= 2 * n,
{
    proof {
        lemma_bit_len_le(n as nat);
    }
    let mut m: u128 = n;
    let mut e: u128 = 0;
    while m > 0
        invariant
            bit_len(n as nat) == e + bit_len(m as nat),
            bit_len(n as nat) <= n,
        decreases m,
    {
        assert(bit_len(m as nat) == 1 + bit_len((m / 2) as nat));
        m = m / 2;
        e = e + 1;
    }
    if e <= 24 {
        return n;
    }
    let s: u128 = e - 24;
    proof {
        lemma_bit_len_bounds(n as nat);
        lemma_pow2_monotone(s as nat, (e - 1) as nat);
    }
    let mut p: u128 = 1;
    let mut k: u128 = 0;
    while k < s
        invariant
            k <= s,
            p == pow2(k as nat),
            pow2(s as nat) <= n,
        decreases s - k,
    {
        proof {
            lemma_pow2_monotone((k + 1) as nat, s as nat);
        }
        p = p * 2;
        k = k + 1;
    }
    let q = n / p;
    let rem = n % p;
    assert(q * p + rem == n && rem < p) by (nonlinear_arith)
        requires
            q == n / p,
            rem == n % p,
            p > 0,
    ;
    assert(q * p <= n) by (nonlinear_arith)
        requires
            q * p + rem == n,
            rem >= 0,
    ;
    assert((q + 1) * p == q * p + p) by (nonlinear_arith);
    if rem * 2 > p || (rem * 2 == p && q % 2 == 1) {
        (q + 1) * p
    } else {
        q * p
    }
}

} // verus!
