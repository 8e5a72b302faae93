//! Numbers of the rule language. A double is held by its IEEE-754 bit
//! pattern (a `u64`), and compared through the order that the standard
//! gives it: the sign and magnitude of the pattern order every value but NaN,
//! which compares to nothing, and both zeros are equal.
use vstd::arithmetic::div_mod::*;
use vstd::arithmetic::mul::*;
use vstd::arithmetic::power2::*;
use vstd::prelude::*;

verus! {

/// The bit that holds the sign of a double.
pub open spec fn sign_bit() -> int {
    0x8000_0000_0000_0000
}

/// The pattern of a double with its sign bit cleared.
pub open spec fn magnitude(bits: u64) -> int {
    (bits % 0x8000_0000_0000_0000u64) as int
}

/// A double is NaN when its exponent is all ones and its mantissa is not zero.
pub open spec fn is_nan(bits: u64) -> bool {
    magnitude(bits) > 0x7ff0_0000_0000_0000
}

/// The position of a double on the number line: the magnitude, negated when the
/// sign bit is set. Both zeros sit at 0.
pub open spec fn order_key(bits: u64) -> int {
    if bits >= sign_bit() {
        -magnitude(bits)
    } else {
        magnitude(bits)
    }
}

/// `a == b` on doubles.
pub open spec fn double_eq(a: u64, b: u64) -> bool {
    !is_nan(a) && !is_nan(b) && order_key(a) == order_key(b)
}

/// `a < b` on doubles.
pub open spec fn double_lt(a: u64, b: u64) -> bool {
    !is_nan(a) && !is_nan(b) && order_key(a) < order_key(b)
}

/// `a <= b` on doubles.
pub open spec fn double_le(a: u64, b: u64) -> bool {
    !is_nan(a) && !is_nan(b) && order_key(a) <= order_key(b)
}

/// The number of bits after the leading one of a positive integer.
pub open spec fn log2_floor(a: nat) -> nat
    decreases a,
{
    if a <= 1 {
        0
    } else {
        1 + log2_floor(a / 2)
    }
}

/// `a / 2^s` rounded to the nearest integer, ties to the even one.
pub open spec fn round_half_even(a: nat, s: nat) -> nat {
    let q = a / pow2(s);
    let r = a % pow2(s);
    if s == 0 {
        q
    } else if r > pow2((s - 1) as nat) || (r == pow2((s - 1) as nat) && q % 2 == 1) {
        q + 1
    } else {
        q
    }
}

/// The exponent (unbiased) and 53-bit significand of the double nearest to
/// the positive integer `a`.
pub open spec fn double_parts(a: nat) -> (int, nat) {
    let p = log2_floor(a);
    if p <= 52 {
        (p as int, a * pow2((52 - p) as nat))
    } else {
        let q = round_half_even(a, (p - 52) as nat);
        if q == pow2(53) {
            ((p + 1) as int, pow2(52))
        } else {
            (p as int, q)
        }
    }
}

/// The bit pattern of `i as f64`: the double nearest to `i`, ties to even.
pub open spec fn int_to_double(i: int) -> int {
    let a: nat = if i < 0 { (-i) as nat } else { i as nat };
    if a == 0 {
        0
    } else {
        let (e, sig) = double_parts(a);
        let body = (e + 1023) * pow2(52) + (sig - pow2(52));
        if i < 0 {
            body + sign_bit()
        } else {
            body
        }
    }
}

/// The bit pattern of the double nearest to `i`.
pub open spec fn int_as_double(i: i64) -> u64 {
    int_to_double(i as int) as u64
}

proof fn lemma_log2_floor_bounds(a: nat)
    requires
        a >= 1,
    ensures
        pow2(log2_floor(a)) <= a < pow2(log2_floor(a) + 1),
    decreases a,
{
    if a > 1 {
        lemma_log2_floor_bounds(a / 2);
        lemma_pow2_unfold(log2_floor(a / 2) + 1);
        lemma_pow2_unfold(log2_floor(a / 2) + 2);
        assert(a == 2 * (a / 2) + a % 2);
        assert(log2_floor(a) == log2_floor(a / 2) + 1);
    } else {
        lemma2_to64();
        lemma2_to64_rest();
    }
}

/// The position of a double on the number line (see `order_key`).
pub fn double_order_key(bits: u64) -> (k: i64)
    ensures
        k == order_key(bits),
{
    if bits >= 0x8000_0000_0000_0000 {
        -((bits - 0x8000_0000_0000_0000) as i64)
    } else {
        bits as i64
    }
}

/// Whether a double is NaN.
pub fn double_is_nan(bits: u64) -> (b: bool)
    ensures
        b == is_nan(bits),
{
    bits % 0x8000_0000_0000_0000 > 0x7ff0_0000_0000_0000
}

/// `a == b` on doubles given by their bit patterns.
pub fn double_equals(a: u64, b: u64) -> (r: bool)
    ensures
        r == double_eq(a, b),
{
    !double_is_nan(a) && !double_is_nan(b) && double_order_key(a) == double_order_key(b)
}

/// `a < b` on doubles given by their bit patterns.
pub fn double_less(a: u64, b: u64) -> (r: bool)
    ensures
        r == double_lt(a, b),
{
    !double_is_nan(a) && !double_is_nan(b) && double_order_key(a) < double_order_key(b)
}

/// `a <= b` on doubles given by their bit patterns.
pub fn double_less_eq(a: u64, b: u64) -> (r: bool)
    ensures
        r == double_le(a, b),
{
    !double_is_nan(a) && !double_is_nan(b) && double_order_key(a) <= double_order_key(b)
}


/// `2^n` for `n < 64`.
fn pow2_u64(n: u64) -> (r: u64)
    requires
        n < 64,
    ensures
        r == pow2(n as nat),
{
    let mut r: u64 = 1;
    let mut k: u64 = 0;
    proof {
        lemma2_to64();
        lemma2_to64_rest();
    }
    while k < n
        invariant
            k <= n < 64,
            r == pow2(k as nat),
        decreases n - k,
    {
        proof {
            lemma_pow2_unfold((k + 1) as nat);
            lemma_pow2_strictly_increases((k + 1) as nat, 64);
            lemma2_to64();
            lemma2_to64_rest();
        }
        r = r * 2;
        k = k + 1;
    }
    r
}

/// The bit pattern of `i as f64`: the double nearest to `i`, ties to the even one.
pub fn int_to_double_bits(i: i64) -> (bits: u64)
    ensures
        bits == int_as_double(i),
        bits == int_to_double(i as int),
{
    let a: u64 = if i < 0 {
        (0i128 - i as i128) as u64
    } else {
        i as u64
    };
    let ghost an: nat = a as nat;
    assert(an == (if i < 0 { (-i) as nat } else { i as nat }));
    if a == 0 {
        return 0;
    }
    proof {
        lemma_log2_floor_bounds(an);
        lemma2_to64();
        lemma2_to64_rest();
        if log2_floor(an) >= 64 {
            if log2_floor(an) > 64 {
                lemma_pow2_strictly_increases(64, log2_floor(an));
            }
        }
    }
    let mut p: u64 = 0;
    let mut t: u64 = a;
    while t > 1
        invariant
            1 <= t <= a,
            log2_floor(an) == p + log2_floor(t as nat),
            log2_floor(an) <= 63,
            an == a,
        decreases t,
    {
        t = t / 2;
        p = p + 1;
    }
    assert(p == log2_floor(an));
    let ghost lo = pow2(p as nat);
    let ghost hi = pow2((p + 1) as nat);
    assert(lo <= a < hi);
    let e: u64;
    let sig: u64;
    if p <= 52 {
        let pw = pow2_u64(52 - p);
        proof {
            lemma_pow2_adds(p as nat, (52 - p) as nat);
            lemma_pow2_adds((p + 1) as nat, (52 - p) as nat);
            lemma_mul_inequality(lo as int, a as int, pw as int);
            lemma_pow2_pos((52 - p) as nat);
            lemma_mul_strict_inequality(a as int, hi as int, pw as int);
            lemma2_to64_rest();
            lemma_pow2_unfold(53);
            lemma2_to64();
            lemma2_to64_rest();
        }
        e = p;
        sig = a * pw;
    } else {
        let s = p - 52;
        let pw = pow2_u64(s);
        let q = a / pw;
        let r = a % pw;
        let half = pw / 2;
        proof {
            lemma_pow2_unfold(s as nat);
            lemma_pow2_adds(52, s as nat);
            lemma_pow2_adds(53, s as nat);
            lemma_fundamental_div_mod(a as int, pw as int);
            lemma2_to64();
            lemma2_to64_rest();
            let p52 = pow2(52);
            let p53 = pow2(53);
            assert(lo == p52 * pw);
            assert(hi == p53 * pw);
            if q >= p53 {
                lemma_mul_inequality(p53 as int, q as int, pw as int);
                assert(pw * q >= p53 * pw) by (nonlinear_arith)
                    requires
                        q >= p53,
                        pw > 0,
                ;
            }
            if q < p52 {
                assert(pw * q <= (p52 - 1) * pw) by (nonlinear_arith)
                    requires
                        q <= p52 - 1,
                        pw > 0,
                ;
                assert((p52 - 1) * pw == p52 * pw - pw) by (nonlinear_arith);
            }
            assert(p52 <= q < p53);
        }
        let up = r > half || (r == half && q % 2 == 1);
        let q2 = if up {
            q + 1
        } else {
            q
        };
        assert(q2 == round_half_even(an, s as nat));
        if q2 == 0x20_0000_0000_0000 {
            e = p + 1;
            sig = 0x10_0000_0000_0000;
        } else {
            e = p;
            sig = q2;
        }
    }
    assert(double_parts(an) == (e as int, sig as nat));
    assert(0x10_0000_0000_0000 <= sig < 0x20_0000_0000_0000) by {
        lemma2_to64();
        lemma2_to64_rest();
    };
    let body = (e + 1023) * 0x10_0000_0000_0000 + (sig - 0x10_0000_0000_0000);
    proof {
        lemma2_to64();
        lemma2_to64_rest();
    }
    if i < 0 {
        body + 0x8000_0000_0000_0000
    } else {
        body
    }
}

} // verus!
