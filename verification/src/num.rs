//! Integer helpers, and single-precision numbers carried by their bit pattern.

use vstd::arithmetic::power2::pow2;
use vstd::prelude::*;

verus! {

/// Whether `n` is a multiple of `k`; zero is the only multiple of zero.
pub open spec fn is_multiple(n: int, k: int) -> bool {
    if k == 0 {
        n == 0
    } else {
        n % k == 0
    }
}

/// Whether `n` is a multiple of `k`.
pub fn multiple_of(n: u32, k: u32) -> (r: bool)
    ensures
        r == is_multiple(n as int, k as int),
{
    if k == 0 {
        n == 0
    } else {
        n % k == 0
    }
}

/// The least number of parts of size `d` that cover `n`.
pub open spec fn ceil_div(n: int, d: int) -> int {
    if n % d == 0 {
        n / d
    } else {
        n / d + 1
    }
}

/// `n / d`, rounded up.
pub fn div_ceil(n: u32, d: u32) -> (r: u32)
    requires
        d > 0,
    ensures
        r == ceil_div(n as int, d as int),
{
    let q: u32 = n / d;
    if n % d == 0 {
        q
    } else {
        assert(q < n) by (nonlinear_arith)
            requires
                q == n / d,
                n % d != 0,
                d > 0,
                n >= 0,
        ;
        q + 1
    }
}

/// `ceil_div` is the least count of parts of size `d` that reaches `n`.
pub proof fn lemma_ceil_div(n: int, d: int)
    requires
        n >= 0,
        d > 0,
    ensures
        ceil_div(n, d) * d >= n,
        n > 0 ==> (ceil_div(n, d) - 1) * d < n,
        0 <= ceil_div(n, d) <= n,
        n > 0 ==> ceil_div(n, d) > 0,
{
    let q = n / d;
    let m = n % d;
    assert(n == q * d + m && 0 <= m < d) by (nonlinear_arith)
        requires
            q == n / d,
            m == n % d,
            d > 0,
    ;
    assert((q + 1) * d == q * d + d) by (nonlinear_arith);
    assert((q - 1) * d == q * d - d) by (nonlinear_arith);
    assert(0 <= q <= n) by (nonlinear_arith)
        requires
            n == q * d + m,
            0 <= m < d,
            d > 0,
            n >= 0,
    ;
    assert(m > 0 ==> q < n) by (nonlinear_arith)
        requires
            n == q * d + m,
            d > 0,
            q >= 0,
    ;
    assert(n > 0 && m == 0 ==> q > 0) by (nonlinear_arith)
        requires
            n == q * d + m,
            d > 0,
            q >= 0,
    ;
}

/// The low 32 bits of `n`.
pub fn low_u32(n: usize) -> (r: u32)
    ensures
        r == n as int % 0x1_0000_0000,
{
    let wide: u64 = n as u64;
    assert((wide as u32) == wide % 0x1_0000_0000) by (bit_vector);
    wide as u32
}

/// The low 8 bits of `n`.
pub fn low_u8(n: u64) -> (r: u8)
    ensures
        r == n as int % 256,
{
    assert((n as u8) == n % 256) by (bit_vector);
    n as u8
}

/// The number of binary digits of `n`; zero has none.
pub open spec fn bit_length(n: nat) -> nat
    decreases n,
{
    if n == 0 {
        0
    } else {
        1 + bit_length(n / 2)
    }
}

/// Numbers with at most `bit_length(n)` binary digits are those below
/// two to the `bit_length(n)`, and `n` is one of them.
pub proof fn lemma_bit_length(n: nat)
    ensures
        n < pow2(bit_length(n)),
        n > 0 ==> pow2((bit_length(n) - 1) as nat) <= n,
    decreases n,
{
    reveal(pow2);
    if n == 0 {
        vstd::arithmetic::power2::lemma2_to64();
    } else {
        lemma_bit_length(n / 2);
        vstd::arithmetic::power2::lemma_pow2_unfold(bit_length(n));
        if n / 2 > 0 {
            vstd::arithmetic::power2::lemma_pow2_unfold((bit_length(n) - 1) as nat);
        } else {
            vstd::arithmetic::power2::lemma2_to64();
        }
    }
}

/// How many binary digits `n` needs.
pub fn bits_needed(n: u32) -> (r: u32)
    ensures
        r == bit_length(n as nat),
        r <= 32,
{
    let mut rest: u32 = n;
    let mut bits: u32 = 0;
    assert(n < pow2(32)) by {
        vstd::arithmetic::power2::lemma2_to64();
    }
    while rest > 0
        invariant
            bit_length(n as nat) == bits + bit_length(rest as nat),
            bits <= 32,
            rest < pow2((32 - bits) as nat),
        decreases rest,
    {
        proof {
            if bits == 32 {
                vstd::arithmetic::power2::lemma2_to64();
            }
            vstd::arithmetic::power2::lemma_pow2_unfold((32 - bits) as nat);
        }
        rest = rest / 2;
        bits = bits + 1;
    }
    bits
}

/// A single-precision number, held as its IEEE 754 bit pattern. The values that are
/// neither negative nor NaN are ordered as their patterns are.
#[derive(Clone, Copy, PartialEq, Eq, Structural, Debug)]
pub struct F32Bits {
    pub bits: u32,
}

/// The pattern of positive infinity; larger patterns without sign are NaN.
pub const INFINITY_BITS: u32 = 0x7f80_0000;

/// The pattern of 1.0.
pub const ONE_BITS: u32 = 0x3f80_0000;

/// The pattern of the largest finite value.
pub const MAX_BITS: u32 = 0x7f7f_ffff;

impl F32Bits {
    /// Whether the value is greater than zero.
    pub open spec fn positive(self) -> bool {
        0 < self.bits <= INFINITY_BITS
    }

    /// Whether the value is at least one.
    pub open spec fn reaches_one(self) -> bool {
        ONE_BITS <= self.bits <= INFINITY_BITS
    }

    /// Whether the value is greater than zero.
    pub fn is_positive(&self) -> (r: bool)
        ensures
            r == self.positive(),
    {
        0 < self.bits && self.bits <= INFINITY_BITS
    }

    /// Whether the value is at least one.
    pub fn is_at_least_one(&self) -> (r: bool)
        ensures
            r == self.reaches_one(),
    {
        ONE_BITS <= self.bits && self.bits <= INFINITY_BITS
    }
}

/// What is left of a pattern when the sign is taken away.
pub open spec fn magnitude32(bits: u32) -> int {
    if bits >= 0x8000_0000 {
        bits - 0x8000_0000
    } else {
        bits as int
    }
}

/// Whether two patterns stand for equal numbers: NaN equals nothing, and zero has two
/// patterns.
pub open spec fn same_f32(a: F32Bits, b: F32Bits) -> bool {
    magnitude32(a.bits) <= INFINITY_BITS && (a.bits == b.bits || (magnitude32(a.bits) == 0
        && magnitude32(b.bits) == 0))
}

/// Whether two numbers are equal.
pub fn equal_f32(a: F32Bits, b: F32Bits) -> (r: bool)
    ensures
        r == same_f32(a, b),
{
    let x: u32 = if a.bits >= 0x8000_0000 {
        a.bits - 0x8000_0000
    } else {
        a.bits
    };
    let y: u32 = if b.bits >= 0x8000_0000 {
        b.bits - 0x8000_0000
    } else {
        b.bits
    };
    x <= INFINITY_BITS && (a.bits == b.bits || (x == 0 && y == 0))
}

/// A double-precision number, held as its IEEE 754 bit pattern.
#[derive(Clone, Copy, PartialEq, Eq, Structural, Debug)]
pub struct F64Bits {
    pub bits: u64,
}

/// The pattern of positive infinity in double precision.
pub const INFINITY_BITS_64: u64 = 0x7ff0_0000_0000_0000;

/// What is left of a double-precision pattern when the sign is taken away.
pub open spec fn magnitude64(bits: u64) -> int {
    if bits >= 0x8000_0000_0000_0000 {
        bits - 0x8000_0000_0000_0000
    } else {
        bits as int
    }
}

/// Whether two double-precision patterns stand for equal numbers.
pub open spec fn same_f64(a: F64Bits, b: F64Bits) -> bool {
    magnitude64(a.bits) <= INFINITY_BITS_64 && (a.bits == b.bits || (magnitude64(a.bits) == 0
        && magnitude64(b.bits) == 0))
}

/// Whether two double-precision numbers are equal.
pub fn equal_f64(a: F64Bits, b: F64Bits) -> (r: bool)
    ensures
        r == same_f64(a, b),
{
    let x: u64 = if a.bits >= 0x8000_0000_0000_0000 {
        a.bits - 0x8000_0000_0000_0000
    } else {
        a.bits
    };
    let y: u64 = if b.bits >= 0x8000_0000_0000_0000 {
        b.bits - 0x8000_0000_0000_0000
    } else {
        b.bits
    };
    x <= INFINITY_BITS_64 && (a.bits == b.bits || (x == 0 && y == 0))
}

} // verus!
