//! Scalar bit patterns.
//!
//! Transforms (translations, rotations, scales) travel through the engine
//! as IEEE 754 single-precision values, but the engine itself never does
//! arithmetic on them: it only stores and copies them. They are therefore
//! carried as plain `u32` bit patterns, and the collaborators that do real
//! arithmetic (the renderer, foreign modules) convert at the boundary.
//!
//! This module gives the engine the one conversion its own logic needs:
//! encoding a small non-negative integer (a pixel coordinate) exactly as a
//! single-precision bit pattern, so that built-in behaviors can place
//! entities at positions derived from the window size.

use vstd::prelude::*;

verus! {

/// Bit pattern of the single-precision value zero.
pub const SCALAR_ZERO: u32 = 0;

/// Bit pattern of the single-precision value one.
pub const SCALAR_ONE: u32 = 0x3F80_0000;

/// Largest integer below which every integer has an exact single-precision
/// encoding with a 23-bit mantissa (two to the twenty-fourth power).
pub const SCALAR_EXACT_LIMIT: u64 = 0x100_0000;

/// Two to the power `e`.
pub open spec fn pow2(e: nat) -> nat
    decreases e,
{
    if e == 0 {
        1
    } else {
        2 * pow2((e - 1) as nat)
    }
}

/// The floor of the base-two logarithm of `n` (zero when `n` is zero).
pub open spec fn ilog2(n: nat) -> nat
    decreases n,
{
    if n <= 1 {
        0
    } else {
        1 + ilog2(n / 2)
    }
}

/// The single-precision bit pattern of the integer `n`, for
/// `1 <= n < 2^24`: a biased exponent of `127 + ilog2(n)` and the 23-bit
/// mantissa left after dropping the leading one-bit of `n`.
pub open spec fn encoded_bits(n: nat) -> nat
    recommends
        1 <= n < 0x1000000,
{
    let e = ilog2(n);
    ((127 + e) * 0x800000 + (n * pow2((23 - e) as nat) - 0x800000)) as nat
}

/// The bit pattern `scalar_of_uint` returns: the exact encoding of `n`,
/// with inputs at or above `2^24` clamped to the largest exactly
/// representable integer below it.
pub open spec fn spec_scalar_of_uint(n: nat) -> u32 {
    let m: nat = if n >= 0x1000000 { 0xFFFFFF } else { n };
    if m == 0 {
        0u32
    } else {
        encoded_bits(m) as u32
    }
}

pub proof fn lemma_pow2_pos(e: nat)
    ensures
        pow2(e) >= 1,
    decreases e,
{
    if e > 0 {
        lemma_pow2_pos((e - 1) as nat);
    }
}

pub proof fn lemma_pow2_add(a: nat, b: nat)
    ensures
        pow2(a + b) == pow2(a) * pow2(b),
    decreases a,
{
    if a == 0 {
        assert(pow2(0) == 1);
        assert(pow2(a + b) == pow2(b));
        assert(pow2(a) * pow2(b) == pow2(b)) by (nonlinear_arith)
            requires
                pow2(a) == 1,
        ;
    } else {
        lemma_pow2_add((a - 1) as nat, b);
        assert(pow2(a + b) == 2 * pow2((a - 1) as nat + b));
        assert(pow2(a + b) == 2 * (pow2((a - 1) as nat) * pow2(b)));
        assert(2 * (pow2((a - 1) as nat) * pow2(b)) == (2 * pow2((a - 1) as nat)) * pow2(b))
            by (nonlinear_arith);
        assert(pow2(a) == 2 * pow2((a - 1) as nat));
        assert(pow2(a) * pow2(b) == (2 * pow2((a - 1) as nat)) * pow2(b));
        assert(pow2(a + b) == pow2(a) * pow2(b));
    }
}

/// `ilog2` is the unique exponent whose power-of-two window holds `n`.
pub proof fn lemma_ilog2_unique(n: nat, e: nat)
    requires
        pow2(e) <= n,
        n < 2 * pow2(e),
    ensures
        ilog2(n) == e,
    decreases e,
{
    if e == 0 {
        assert(n == 1);
    } else {
        lemma_pow2_pos((e - 1) as nat);
        assert(pow2((e - 1) as nat) <= n / 2 && n / 2 < 2 * pow2((e - 1) as nat));
        lemma_ilog2_unique(n / 2, (e - 1) as nat);
        assert(n >= 2);
    }
}

/// Encodes `n` exactly as a single-precision bit pattern, clamping inputs
/// at or above `2^24` (which have no exact encoding) to `2^24 - 1`.
pub fn scalar_of_uint(n: usize) -> (r: u32)
    ensures
        r == spec_scalar_of_uint(n as nat),
{
    let m: u64 = if n as u64 >= SCALAR_EXACT_LIMIT {
        0xFFFFFF
    } else {
        n as u64
    };
    if m == 0 {
        return 0;
    }
    // Find e with pow2(e) <= m < 2 * pow2(e).
    let mut e: u64 = 0;
    let mut p: u64 = 1;
    while 2 * p <= m
        invariant
            1 <= m < 0x1000000,
            p == pow2(e as nat),
            1 <= p <= m,
            e <= 23,
        decreases m - p,
    {
        proof {
            if e == 23 {
                assert(pow2(23) == 0x800000) by {
                    reveal_with_fuel(pow2, 24);
                }
            }
        }
        p = 2 * p;
        e = e + 1;
    }
    proof {
        lemma_ilog2_unique(m as nat, e as nat);
    }
    // q = pow2(23 - e), so that m * q places the leading bit of m at bit 23.
    let mut q: u64 = 1;
    let mut k: u64 = 0;
    while k < 23 - e
        invariant
            e <= 23,
            k <= 23 - e,
            q == pow2(k as nat),
        decreases 23 - e - k,
    {
        proof {
            if k < 23 {
                assert(pow2(23) == 0x800000) by {
                    reveal_with_fuel(pow2, 24);
                }
                lemma_pow2_increases(k as nat + 1, 23);
            }
        }
        q = 2 * q;
        k = k + 1;
    }
    proof {
        lemma_pow2_add(e as nat, (23 - e) as nat);
        assert(pow2(23) == 0x800000) by {
            reveal_with_fuel(pow2, 24);
        }
        assert(p * q == 0x800000);
        assert(m * q >= p * q) by (nonlinear_arith)
            requires
                m >= p,
                q >= 1,
        ;
        assert(m * q < 2 * (p * q)) by (nonlinear_arith)
            requires
                m < 2 * p,
                q >= 1,
        ;
    }
    let mantissa_window: u64 = m * q;
    (((127 + e) * 0x800000 + (mantissa_window - 0x800000)) as u32)
}

pub proof fn lemma_pow2_increases(a: nat, b: nat)
    requires
        a <= b,
    ensures
        pow2(a) <= pow2(b),
    decreases b,
{
    if a < b {
        lemma_pow2_increases(a, (b - 1) as nat);
        lemma_pow2_pos((b - 1) as nat);
    }
}

} // verus!
