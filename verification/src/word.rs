//! Octabyte arithmetic: the value-level meaning of MMIX's integer
//! instructions, stated over mathematical integers and computed on `u64`.
//!
//! An octabyte is read two ways: unsigned (`v as int`) and signed
//! (`signed(v)`, two's complement). Every result the machine stores is the
//! exact mathematical result reduced modulo 2^64 (`wrap`).
use vstd::prelude::*;
use vstd::arithmetic::div_mod::lemma_fundamental_div_mod;
use vstd::arithmetic::div_mod::lemma_fundamental_div_mod_converse;

verus! {

/// 2^64, the number of distinct octabytes.
pub open spec fn modulus() -> int {
    0x1_0000_0000_0000_0000
}

/// The octabyte congruent to `v` modulo 2^64.
pub open spec fn wrap(v: int) -> u64 {
    (v % modulus()) as u64
}

/// The two's-complement value of an octabyte.
pub open spec fn signed(v: u64) -> int {
    if v < 0x8000_0000_0000_0000 {
        v as int
    } else {
        v - modulus()
    }
}

/// Whether `v` is representable as a signed octabyte.
pub open spec fn fits_signed(v: int) -> bool {
    -0x8000_0000_0000_0000 <= v < 0x8000_0000_0000_0000
}

/// 2^n.
pub open spec fn p2(n: nat) -> nat
    decreases n,
{
    if n == 0 {
        1
    } else {
        2 * p2((n - 1) as nat)
    }
}

/// Integer division rounding toward negative infinity (`b != 0`).
pub open spec fn floor_div(a: int, b: int) -> int {
    if b > 0 {
        a / b
    } else {
        (-a) / (-b)
    }
}

/// `wrap` does not change a value that already is an octabyte.
pub proof fn lemma_wrap_small(v: int)
    requires
        0 <= v < modulus(),
    ensures
        wrap(v) == v,
{
}

/// `wrap` ignores whole multiples of 2^64.
pub proof fn lemma_wrap_multiple(v: int, k: int)
    ensures
        wrap(v + k * modulus()) == wrap(v),
{
    lemma_fundamental_div_mod(v, modulus());
    lemma_fundamental_div_mod_converse(
        v + k * modulus(),
        modulus(),
        v / modulus() + k,
        v % modulus(),
    );
}

/// 2^63 and 2^64, unfolded.
proof fn lemma_p2_63_64()
    ensures
        p2(63) == 0x8000_0000_0000_0000,
        p2(64) == 0x1_0000_0000_0000_0000,
{
    reveal_with_fuel(p2, 65);
}

/// 2^n is positive, at most 2^63 below 64, and doubles from step to step.
pub proof fn lemma_p2_facts(n: nat)
    ensures
        p2(n) >= 1,
        n < 64 ==> p2(n) <= 0x8000_0000_0000_0000,
        n <= 64 ==> p2(n) <= 0x1_0000_0000_0000_0000,
        p2(n + 1) == 2 * p2(n),
{
    lemma_p2_pos(n);
    lemma_p2_63_64();
    if n < 64 {
        lemma_p2_monotone(n, 63);
    }
    if n <= 64 {
        lemma_p2_monotone(n, 64);
    }
}

/// 2^n grows with n.
pub proof fn lemma_p2_monotone(a: nat, b: nat)
    requires
        a <= b,
    ensures
        p2(a) <= p2(b),
    decreases b - a,
{
    if a < b {
        lemma_p2_monotone(a, (b - 1) as nat);
        lemma_p2_pos((b - 1) as nat);
    }
}

proof fn lemma_p2_pos(n: nat)
    ensures
        p2(n) >= 1,
    decreases n,
{
    if n > 0 {
        lemma_p2_pos((n - 1) as nat);
    }
}

/// 2^(a+b) = 2^a * 2^b.
pub proof fn lemma_p2_add(a: nat, b: nat)
    ensures
        p2(a + b) == p2(a) * p2(b),
    decreases b,
{
    if b > 0 {
        lemma_p2_add(a, (b - 1) as nat);
        assert((a + b - 1) as nat == a + (b - 1) as nat);
        assert(p2(a + b) == 2 * p2((a + b - 1) as nat));
        assert(p2(a) * p2(b) == p2(a) * (2 * p2((b - 1) as nat)));
        assert(p2(a) * (2 * p2((b - 1) as nat)) == 2 * (p2(a) * p2((b - 1) as nat)))
            by (nonlinear_arith);
        assert(p2((a + b - 1) as nat) == p2(a) * p2((b - 1) as nat));
    } else {
        assert(p2(0) == 1);
        assert(a + b == a);
        assert(p2(a) * 1 == p2(a)) by (nonlinear_arith);
    }
}

/// 2^n as an octabyte.
pub fn pow2_u64(n: u64) -> (r: u64)
    requires
        n < 64,
    ensures
        r as nat == p2(n as nat),
{
    let mut r: u64 = 1;
    let mut i: u64 = 0;
    while i < n
        invariant
            i <= n < 64,
            r as nat == p2(i as nat),
        decreases n - i,
    {
        proof {
            lemma_p2_facts(i as nat);
            lemma_p2_facts((i + 1) as nat);
        }
        r = r * 2;
        i = i + 1;
    }
    r
}

/// Whether the sign bit is set.
pub open spec fn is_negative(v: u64) -> bool {
    v >= 0x8000_0000_0000_0000
}

// ---------------------------------------------------------------- add/sub

/// `ADD`: the wrapped sum and whether the signed sum overflows.
pub fn add_signed(y: u64, z: u64) -> (r: (u64, bool))
    ensures
        r.0 == wrap(y + z),
        r.1 == !fits_signed(signed(y) + signed(z)),
{
    let s = y.wrapping_add(z);
    let sy = y >= 0x8000_0000_0000_0000;
    let sz = z >= 0x8000_0000_0000_0000;
    let ss = s >= 0x8000_0000_0000_0000;
    (s, sy == sz && ss != sy)
}

/// `SUB`/`NEG`: the wrapped difference and whether the signed difference
/// overflows.
pub fn sub_signed(y: u64, z: u64) -> (r: (u64, bool))
    ensures
        r.0 == wrap(y - z),
        r.1 == !fits_signed(signed(y) - signed(z)),
{
    let s = y.wrapping_sub(z);
    let sy = y >= 0x8000_0000_0000_0000;
    let sz = z >= 0x8000_0000_0000_0000;
    let ss = s >= 0x8000_0000_0000_0000;
    (s, sy != sz && ss != sy)
}

/// The magnitude of a signed octabyte, as an unsigned one.
fn magnitude(v: u64) -> (r: u64)
    ensures
        r as int == (if is_negative(v) { -signed(v) } else { signed(v) }),
{
    if v >= 0x8000_0000_0000_0000 {
        0u64.wrapping_sub(v)
    } else {
        v
    }
}

/// `wrap(-a)` depends only on `a` modulo 2^64.
proof fn lemma_wrap_neg_mod(a: int)
    ensures
        wrap(-a) == wrap(-(a % modulus())),
{
    lemma_fundamental_div_mod(a, modulus());
    lemma_wrap_multiple(-(a % modulus()), -(a / modulus()));
    assert(-(a % modulus()) + (-(a / modulus())) * modulus() == -a) by (nonlinear_arith)
        requires
            a == modulus() * (a / modulus()) + (a % modulus()),
    ;
}

proof fn lemma_signed_product(y: u64, z: u64, my: int, mz: int)
    requires
        my == (if is_negative(y) { -signed(y) } else { signed(y) }),
        mz == (if is_negative(z) { -signed(z) } else { signed(z) }),
    ensures
        signed(y) * signed(z) == (if is_negative(y) != is_negative(z) { -(my * mz) } else { my * mz }),
{
    let a = signed(y);
    let b = signed(z);
    if is_negative(y) && is_negative(z) {
        assert(a * b == (-a) * (-b)) by (nonlinear_arith);
    } else if is_negative(y) {
        assert(a * b == -((-a) * b)) by (nonlinear_arith);
    } else if is_negative(z) {
        assert(a * b == -(a * (-b))) by (nonlinear_arith);
    }
}

/// `MUL`: the wrapped signed product and whether it overflows.
pub fn mul_signed(y: u64, z: u64) -> (r: (u64, bool))
    ensures
        r.0 == wrap(signed(y) * signed(z)),
        r.1 == !fits_signed(signed(y) * signed(z)),
{
    let my = magnitude(y);
    let mz = magnitude(z);
    proof {
        assert((my as int) * (mz as int) <= 0xFFFF_FFFF_FFFF_FFFF * 0xFFFF_FFFF_FFFF_FFFF)
            by (nonlinear_arith)
            requires
                my <= 0xFFFF_FFFF_FFFF_FFFFu64,
                mz <= 0xFFFF_FFFF_FFFF_FFFFu64,
        ;
        assert((my as int) * (mz as int) >= 0) by (nonlinear_arith)
            requires
                my >= 0,
                mz >= 0,
        ;
    }
    let p: u128 = (my as u128) * (mz as u128);
    let lo: u64 = (p % 0x1_0000_0000_0000_0000u128) as u64;
    let negative = (y >= 0x8000_0000_0000_0000) != (z >= 0x8000_0000_0000_0000);
    proof {
        lemma_signed_product(y, z, my as int, mz as int);
        lemma_wrap_neg_mod(p as int);
    }
    if negative {
        let r = 0u64.wrapping_sub(lo);
        (r, p > 0x8000_0000_0000_0000u128)
    } else {
        (lo, p >= 0x8000_0000_0000_0000u128)
    }
}

/// `MULU`: the low and high octabytes of the unsigned 128-bit product.
pub fn mul_unsigned(y: u64, z: u64) -> (r: (u64, u64))
    ensures
        r.0 as int == (y as int * z as int) % modulus(),
        r.1 as int == (y as int * z as int) / modulus(),
{
    proof {
        assert((y as int) * (z as int) <= 0xFFFF_FFFF_FFFF_FFFF * 0xFFFF_FFFF_FFFF_FFFF)
            by (nonlinear_arith)
            requires
                y <= 0xFFFF_FFFF_FFFF_FFFFu64,
                z <= 0xFFFF_FFFF_FFFF_FFFFu64,
        ;
        assert((y as int) * (z as int) >= 0) by (nonlinear_arith)
            requires
                y >= 0,
                z >= 0,
        ;
    }
    let p: u128 = (y as u128) * (z as u128);
    let lo = (p % 0x1_0000_0000_0000_0000u128) as u64;
    let hi = (p / 0x1_0000_0000_0000_0000u128) as u64;
    (lo, hi)
}

// ---------------------------------------------------------------- division

/// `DIV`'s quotient: `0` for a zero divisor, else the floored quotient.
pub open spec fn div_quotient(y: u64, z: u64) -> u64 {
    if z == 0 {
        0
    } else {
        wrap(floor_div(signed(y), signed(z)))
    }
}

/// `DIV`'s remainder (left in `rR`): the dividend itself for a zero
/// divisor, else the remainder of the floored division.
pub open spec fn div_remainder(y: u64, z: u64) -> u64 {
    if z == 0 {
        y
    } else {
        wrap(signed(y) - signed(z) * floor_div(signed(y), signed(z)))
    }
}

/// Whether `DIV`'s floored quotient leaves the signed range.
pub open spec fn div_overflows(y: u64, z: u64) -> bool {
    z != 0 && !fits_signed(floor_div(signed(y), signed(z)))
}

proof fn lemma_div_nonneg(a: int, b: int)
    requires
        a >= 0,
        b > 0,
    ensures
        a == b * (a / b) + a % b,
        0 <= a % b < b,
        a / b >= 0,
        a / b <= a,
{
    lemma_fundamental_div_mod(a, b);
    assert(a / b >= 0) by (nonlinear_arith)
        requires
            a >= 0,
            b > 0,
            a == b * (a / b) + a % b,
            0 <= a % b < b,
    ;
    assert(a / b <= a) by (nonlinear_arith)
        requires
            a >= 0,
            b > 0,
            a == b * (a / b) + a % b,
            0 <= a % b < b,
    ;
}

/// The floored quotient of `a` by `b` from the truncated one on magnitudes.
proof fn lemma_floor_div_by_magnitudes(a: int, b: int, ma: int, mb: int, q: int, r: int)
    requires
        b != 0,
        ma == (if a < 0 { -a } else { a }),
        mb == (if b < 0 { -b } else { b }),
        ma == mb * q + r,
        0 <= r < mb,
    ensures
        (a < 0) == (b < 0) ==> floor_div(a, b) == q,
        (a < 0) == (b < 0) && a < 0 ==> a - b * floor_div(a, b) == -r,
        (a < 0) == (b < 0) && a >= 0 ==> a - b * floor_div(a, b) == r,
        (a < 0) != (b < 0) && r == 0 ==> floor_div(a, b) == -q && a - b * floor_div(a, b) == 0,
        (a < 0) != (b < 0) && r != 0 ==> floor_div(a, b) == -q - 1,
        (a < 0) != (b < 0) && r != 0 && b > 0 ==> a - b * floor_div(a, b) == mb - r,
        (a < 0) != (b < 0) && r != 0 && b < 0 ==> a - b * floor_div(a, b) == r - mb,
{
    if b > 0 {
        if a >= 0 {
            lemma_fundamental_div_mod_converse(a, b, q, r);
        } else if r == 0 {
            assert(a == (-q) * b) by (nonlinear_arith)
                requires
                    a == -ma,
                    ma == mb * q,
                    mb == b,
            ;
            lemma_fundamental_div_mod_converse(a, b, -q, 0);
            assert(a - b * (-q) == 0) by (nonlinear_arith)
                requires
                    a == (-q) * b,
            ;
        } else {
            assert(a == (-q - 1) * b + (mb - r)) by (nonlinear_arith)
                requires
                    a == -ma,
                    ma == mb * q + r,
                    mb == b,
            ;
            lemma_fundamental_div_mod_converse(a, b, -q - 1, mb - r);
            assert(a - b * (-q - 1) == mb - r) by (nonlinear_arith)
                requires
                    a == (-q - 1) * b + (mb - r),
            ;
        }
    } else {
        if a <= 0 {
            lemma_fundamental_div_mod_converse(-a, -b, q, r);
            if a == 0 {
                assert(ma == 0);
            }
            assert(a - b * q == -r) by (nonlinear_arith)
                requires
                    -a == mb * q + r,
                    mb == -b,
            ;
            if a == 0 {
                assert(r == 0) by (nonlinear_arith)
                    requires
                        0 == mb * q + r,
                        0 <= r < mb,
                        q == (-a) / (-b),
                        a == 0,
                        b < 0,
                ;
            }
        } else if r == 0 {
            assert(-a == (-q) * (-b)) by (nonlinear_arith)
                requires
                    a == ma,
                    ma == mb * q,
                    mb == -b,
            ;
            lemma_fundamental_div_mod_converse(-a, -b, -q, 0);
            assert(a - b * (-q) == 0) by (nonlinear_arith)
                requires
                    -a == (-q) * (-b),
            ;
        } else {
            assert(-a == (-q - 1) * (-b) + (mb - r)) by (nonlinear_arith)
                requires
                    a == ma,
                    ma == mb * q + r,
                    mb == -b,
            ;
            lemma_fundamental_div_mod_converse(-a, -b, -q - 1, mb - r);
            assert(a - b * (-q - 1) == r - mb) by (nonlinear_arith)
                requires
                    -a == (-q - 1) * (-b) + (mb - r),
                    mb == -b,
            ;
        }
    }
}

/// `DIV`: quotient, remainder, and whether the quotient overflows.
pub fn div_signed(y: u64, z: u64) -> (r: (u64, u64, bool))
    ensures
        r.0 == div_quotient(y, z),
        r.1 == div_remainder(y, z),
        r.2 == div_overflows(y, z),
{
    if z == 0 {
        return (0, y, false);
    }
    let my = magnitude(y);
    let mz = magnitude(z);
    let q = my / mz;
    let rm = my % mz;
    let ny = y >= 0x8000_0000_0000_0000;
    let nz = z >= 0x8000_0000_0000_0000;
    proof {
        lemma_div_nonneg(my as int, mz as int);
        lemma_floor_div_by_magnitudes(signed(y), signed(z), my as int, mz as int, q as int, rm as int);
    }
    proof {
        assert(my <= 0x8000_0000_0000_0000);
        assert(q <= my);
        if rm != 0 {
            assert((q as int) < 0x8000_0000_0000_0000) by (nonlinear_arith)
                requires
                    my as int == (mz as int) * (q as int) + (rm as int),
                    rm > 0,
                    mz > 0,
                    q >= 0,
                    my <= 0x8000_0000_0000_0000,
            ;
        }
    }
    if ny == nz {
        proof {
            lemma_wrap_small(q as int);
            if ny && rm > 0 {
                lemma_wrap_multiple(-(rm as int), 1);
                lemma_wrap_small(modulus() - rm);
            } else {
                lemma_wrap_small(rm as int);
            }
        }
        let rem = if ny { 0u64.wrapping_sub(rm) } else { rm };
        (q, rem, q >= 0x8000_0000_0000_0000)
    } else if rm == 0 {
        proof {
            lemma_wrap_small(0);
        }
        (0u64.wrapping_sub(q), 0, false)
    } else {
        proof {
            lemma_wrap_small((mz - rm) as int);
            lemma_wrap_multiple(rm - mz, 1);
        }
        let quot = 0u64.wrapping_sub(q).wrapping_sub(1);
        let rem = if nz { rm.wrapping_sub(mz) } else { mz - rm };
        (quot, rem, false)
    }
}

/// `DIVU`'s quotient: `rD` itself when the divisor does not exceed it,
/// else the quotient of the 128-bit dividend `rD:$Y`.
pub open spec fn divu_quotient(rd: u64, y: u64, z: u64) -> u64 {
    if rd >= z {
        rd
    } else {
        ((rd as int * modulus() + y) / (z as int)) as u64
    }
}

/// `DIVU`'s remainder, left in `rR`.
pub open spec fn divu_remainder(rd: u64, y: u64, z: u64) -> u64 {
    if rd >= z {
        y
    } else {
        ((rd as int * modulus() + y) % (z as int)) as u64
    }
}

/// `DIVU`: quotient and remainder of the 128-bit dividend `rD:$Y` by `$Z`.
pub fn div_unsigned(rd: u64, y: u64, z: u64) -> (r: (u64, u64))
    ensures
        r.0 == divu_quotient(rd, y, z),
        r.1 == divu_remainder(rd, y, z),
{
    if rd >= z {
        return (rd, y);
    }
    let d: u128 = (rd as u128) * 0x1_0000_0000_0000_0000u128 + (y as u128);
    let q: u128 = d / (z as u128);
    let rem: u128 = d % (z as u128);
    proof {
        lemma_div_nonneg(d as int, z as int);
        assert((d as int) / (z as int) < modulus()) by (nonlinear_arith)
            requires
                d as int == rd as int * modulus() + y as int,
                rd < z,
                y < modulus(),
                z > 0,
                d as int == z as int * ((d as int) / (z as int)) + (d as int) % (z as int),
                (d as int) % (z as int) >= 0,
        ;
    }
    (q as u64, rem as u64)
}

// ---------------------------------------------------------------- compare

/// `CMP`: -1, 0 or 1 by signed order, as an octabyte.
pub open spec fn compare_signed(y: u64, z: u64) -> u64 {
    if signed(y) < signed(z) {
        0xFFFF_FFFF_FFFF_FFFF
    } else if signed(y) == signed(z) {
        0
    } else {
        1
    }
}

/// `CMPU`: -1, 0 or 1 by unsigned order, as an octabyte.
pub open spec fn compare_unsigned(y: u64, z: u64) -> u64 {
    if y < z {
        0xFFFF_FFFF_FFFF_FFFF
    } else if y == z {
        0
    } else {
        1
    }
}

pub fn cmp_signed(y: u64, z: u64) -> (r: u64)
    ensures
        r == compare_signed(y, z),
{
    let ny = y >= 0x8000_0000_0000_0000;
    let nz = z >= 0x8000_0000_0000_0000;
    if y == z {
        0
    } else if ny != nz {
        if ny {
            0xFFFF_FFFF_FFFF_FFFF
        } else {
            1
        }
    } else if y < z {
        0xFFFF_FFFF_FFFF_FFFF
    } else {
        1
    }
}

pub fn cmp_unsigned(y: u64, z: u64) -> (r: u64)
    ensures
        r == compare_unsigned(y, z),
{
    if y < z {
        0xFFFF_FFFF_FFFF_FFFF
    } else if y == z {
        0
    } else {
        1
    }
}

// ---------------------------------------------------------------- shifts

/// `SL`'s result: `$Y * 2^s` modulo 2^64, zero for `s >= 64`.
pub open spec fn shift_left(y: u64, s: u64) -> u64 {
    if s >= 64 {
        0
    } else {
        wrap(y * p2(s as nat))
    }
}

/// Whether `SL` overflows: the signed product `s($Y) * 2^s` leaves the
/// signed range; for `s >= 64` any nonzero `$Y` does.
pub open spec fn shift_left_overflows(y: u64, s: u64) -> bool {
    if s >= 64 {
        y != 0
    } else {
        !fits_signed(signed(y) * p2(s as nat))
    }
}

/// `SR`: arithmetic right shift, `floor(s($Y) / 2^s)`.
pub open spec fn shift_right_signed(y: u64, s: u64) -> u64 {
    if s >= 64 {
        if is_negative(y) {
            0xFFFF_FFFF_FFFF_FFFF
        } else {
            0
        }
    } else {
        wrap(signed(y) / (p2(s as nat) as int))
    }
}

/// `SRU`: logical right shift, `floor($Y / 2^s)`.
pub open spec fn shift_right_unsigned(y: u64, s: u64) -> u64 {
    if s >= 64 {
        0
    } else {
        (y as int / (p2(s as nat) as int)) as u64
    }
}

proof fn lemma_mul_exceeds(x: int, p: int, c: int)
    requires
        p > 0,
        c >= 0,
        x >= 0,
    ensures
        (x * p > c) == (x > c / p),
{
    lemma_fundamental_div_mod(c, p);
    if x > c / p {
        assert(x * p > c) by (nonlinear_arith)
            requires
                x >= c / p + 1,
                p > 0,
                c == p * (c / p) + c % p,
                c % p < p,
        ;
    } else {
        assert(x * p <= c) by (nonlinear_arith)
            requires
                x <= c / p,
                p > 0,
                x >= 0,
                c == p * (c / p) + c % p,
                c % p >= 0,
        ;
    }
}

/// `SL` and `SLU`: the shifted value, and whether `SL` overflows.
pub fn shift_left_checked(y: u64, s: u64) -> (r: (u64, bool))
    ensures
        r.0 == shift_left(y, s),
        r.1 == shift_left_overflows(y, s),
{
    if s >= 64 {
        return (0, y != 0);
    }
    let p = pow2_u64(s);
    proof {
        lemma_p2_facts(s as nat);
    }
    let r = y.wrapping_mul(p);
    let overflow = if y < 0x8000_0000_0000_0000 {
        proof {
            lemma_mul_exceeds(y as int, p as int, 0x7FFF_FFFF_FFFF_FFFF);
        }
        y > 0x7FFF_FFFF_FFFF_FFFF / p
    } else {
        let m = 0u64.wrapping_sub(y);
        proof {
            lemma_mul_exceeds(m as int, p as int, 0x8000_0000_0000_0000);
            assert(signed(y) * (p as int) == -((m as int) * (p as int))) by (nonlinear_arith)
                requires
                    signed(y) == -(m as int),
            ;
        }
        m > 0x8000_0000_0000_0000 / p
    };
    (r, overflow)
}

/// `SR`: arithmetic right shift.
pub fn shift_right_arith(y: u64, s: u64) -> (r: u64)
    ensures
        r == shift_right_signed(y, s),
{
    if s >= 64 {
        return if y >= 0x8000_0000_0000_0000 {
            0xFFFF_FFFF_FFFF_FFFF
        } else {
            0
        };
    }
    let p = pow2_u64(s);
    proof {
        lemma_p2_facts(s as nat);
    }
    if y < 0x8000_0000_0000_0000 {
        proof {
            lemma_div_nonneg(y as int, p as int);
            lemma_wrap_small((y / p) as int);
        }
        y / p
    } else {
        let n = 0xFFFF_FFFF_FFFF_FFFF - y;
        let q = n / p;
        proof {
            lemma_div_nonneg(n as int, p as int);
            let a = signed(y);
            assert(a == -(n as int) - 1);
            assert(a == (-(q as int) - 1) * (p as int) + ((p as int) - 1 - (n as int) % (p as int)))
                by (nonlinear_arith)
                requires
                    a == -(n as int) - 1,
                    n as int == (p as int) * (q as int) + (n as int) % (p as int),
            ;
            lemma_fundamental_div_mod_converse(
                a,
                p as int,
                -(q as int) - 1,
                (p as int) - 1 - (n as int) % (p as int),
            );
            lemma_wrap_multiple(-(q as int) - 1, 1);
            lemma_wrap_small(modulus() - (q as int) - 1);
        }
        0xFFFF_FFFF_FFFF_FFFF - q
    }
}

/// `SRU`: logical right shift.
pub fn shift_right_logical(y: u64, s: u64) -> (r: u64)
    ensures
        r == shift_right_unsigned(y, s),
{
    if s >= 64 {
        return 0;
    }
    let p = pow2_u64(s);
    proof {
        lemma_p2_facts(s as nat);
    }
    y / p
}

// ---------------------------------------------------------------- scaled adds

/// `2ADDU`, `4ADDU`, `8ADDU`, `16ADDU`: `k * $Y + $Z` modulo 2^64.
pub fn scaled_add(k: u64, y: u64, z: u64) -> (r: u64)
    ensures
        r == wrap(k * y + z),
{
    let t = k.wrapping_mul(y);
    let r = t.wrapping_add(z);
    proof {
        lemma_fundamental_div_mod(k * y, modulus());
        lemma_wrap_multiple(t + z, k * y / modulus());
        assert(t + z + (k * y / modulus()) * modulus() == k * y + z) by (nonlinear_arith)
            requires
                t == (k * y) % modulus(),
                k * y == modulus() * (k * y / modulus()) + (k * y) % modulus(),
        ;
    }
    r
}

// ---------------------------------------------------------------- sign extension

/// A field read as a signed number and widened to an octabyte; `half` is
/// half the field's range (0x80 for a byte, 0x8000 for a wyde, ...).
pub open spec fn sign_extend(v: int, half: int) -> u64 {
    if v < half {
        v as u64
    } else {
        (v + modulus() - 2 * half) as u64
    }
}

/// Whether `v` read as signed fits a field whose range is `2 * half`.
pub open spec fn fits_width(v: u64, half: int) -> bool {
    -half <= signed(v) < half
}

// ---------------------------------------------------------------- lanes

/// Lane `i` of width `w` bits in `v`.
pub open spec fn lane(v: u64, i: nat, w: nat) -> int {
    (v as int / (p2(w * i) as int)) % (p2(w) as int)
}

/// The `z` operand of lane `i`: the literal itself in every lane for the
/// immediate forms, the matching lane of `$Z` for the register forms.
pub open spec fn z_lane(z: u64, imm: bool, i: nat, w: nat) -> int {
    if imm {
        z as int
    } else {
        lane(z, i, w)
    }
}

/// The saturating lane-wise difference of the low `n` lanes.
pub open spec fn lanes_diff(y: u64, z: u64, imm: bool, w: nat, n: nat) -> int
    decreases n,
{
    if n == 0 {
        0
    } else {
        let i = (n - 1) as nat;
        let d = lane(y, i, w) - z_lane(z, imm, i, w);
        lanes_diff(y, z, imm, w, i) + (if d > 0 { d } else { 0 }) * (p2(w * i) as int)
    }
}

proof fn lemma_lane_bound(v: u64, i: nat, w: nat)
    ensures
        0 <= lane(v, i, w) < p2(w),
{
    lemma_p2_pos(w);
    lemma_p2_pos(w * i);
    lemma_div_nonneg(v as int, p2(w * i) as int);
    lemma_div_nonneg(v as int / (p2(w * i) as int), p2(w) as int);
}

/// `BDIF`, `WDIF`, `TDIF` and their immediate forms: saturating lane-wise
/// differences over `64 / w` lanes of `w` bits.
pub fn lane_difference(y: u64, z: u64, imm: bool, w: u64) -> (r: u64)
    requires
        w == 8 || w == 16 || w == 32,
        imm ==> z < 256,
    ensures
        r as int == lanes_diff(y, z, imm, w as nat, (64u64 / w) as nat),
{
    let n = 64 / w;
    let m = pow2_u64(w);
    let mut result: u64 = 0;
    let mut p: u64 = 1;
    let mut i: u64 = 0;
    proof {
        lemma_p2_facts(w as nat);
        assert(p2(w as nat * 0) == 1);
    }
    while i < n
        invariant
            w == 8 || w == 16 || w == 32,
            n == 64u64 / w,
            imm ==> z < 256,
            m as nat == p2(w as nat),
            i <= n,
            i < n ==> p as nat == p2(w as nat * i as nat),
            result as int == lanes_diff(y, z, imm, w as nat, i as nat),
            0 <= result < p2(w as nat * i as nat),
        decreases n - i,
    {
        proof {
            lemma_p2_add(w as nat * i as nat, w as nat);
            assert(w as nat * (i as nat + 1) == w as nat * i as nat + w as nat) by (nonlinear_arith);
            assert(w as nat * (i as nat + 1) <= 64) by (nonlinear_arith)
                requires
                    i < n,
                    n == 64u64 / w,
                    w == 8 || w == 16 || w == 32,
            ;
            lemma_p2_facts(w as nat * (i as nat + 1));
            lemma_p2_facts(w as nat * i as nat);
            lemma_p2_pos(w as nat * i as nat);
            lemma_lane_bound(y, i as nat, w as nat);
            lemma_lane_bound(z, i as nat, w as nat);
        }
        let yl = (y / p) % m;
        let zl = if imm { z } else { (z / p) % m };
        let d = if yl > zl { yl - zl } else { 0 };
        proof {
            assert(d < m);
            assert((result as int) + (d as int) * (p as int) < (m as int) * (p as int)) by (nonlinear_arith)
                requires
                    0 <= result < p,
                    d < m,
                    d >= 0,
            ;
            assert((m as int) * (p as int) == (p as int) * (m as int)) by (nonlinear_arith);
            assert((m as int) * (p as int) == p2(w as nat * (i as nat + 1)));
        }
        result = result + d * p;
        if i + 1 < n {
            proof {
                assert(w as nat * (i as nat + 1) < 64) by (nonlinear_arith)
                    requires
                        i + 1 < n,
                        n == 64u64 / w,
                        w == 8 || w == 16 || w == 32,
                ;
            }
            p = p * m;
        }
        i = i + 1;
    }
    result
}

// ---------------------------------------------------------------- bit counts

/// The number of one bits among the low `n` bits of `v`.
pub open spec fn ones(v: int, n: nat) -> int
    decreases n,
{
    if n == 0 {
        0
    } else {
        v % 2 + ones(v / 2, (n - 1) as nat)
    }
}

/// `SADD`: the number of bits set in `$Y` and clear in `$Z`.
pub fn sideways_add(y: u64, z: u64) -> (r: u64)
    ensures
        r as int == ones((y & !z) as int, 64),
{
    let v0 = y & !z;
    let mut v = v0;
    let mut c: u64 = 0;
    let mut i: u64 = 0;
    while i < 64
        invariant
            i <= 64,
            c <= i,
            c + ones(v as int, (64 - i) as nat) == ones(v0 as int, 64),
        decreases 64 - i,
    {
        c = c + v % 2;
        v = v / 2;
        i = i + 1;
    }
    c
}

// ---------------------------------------------------------------- bit matrices

/// Bit `n` of `v`.
pub open spec fn bit(v: u64, n: nat) -> bool {
    (v as int / (p2(n) as int)) % 2 == 1
}

/// Entry (i, j) of the Boolean matrix product of `$Y` and `$Z` as `MOR`
/// (`xor == false`) or `MXOR` (`xor == true`) defines it, over `k < n`.
pub open spec fn matrix_entry(y: u64, z: u64, xor: bool, i: nat, j: nat, n: nat) -> bool
    decreases n,
{
    if n == 0 {
        false
    } else {
        let k = (n - 1) as nat;
        let term = bit(y, 8 * k + j) && bit(z, 8 * i + k);
        let rest = matrix_entry(y, z, xor, i, j, k);
        if xor {
            rest != term
        } else {
            rest || term
        }
    }
}

/// The low `n` bits of the matrix product: bit `8i+j` is entry (i, j).
pub open spec fn matrix_bits(y: u64, z: u64, xor: bool, n: nat) -> int
    decreases n,
{
    if n == 0 {
        0
    } else {
        let b = (n - 1) as nat;
        matrix_bits(y, z, xor, b) + (if matrix_entry(y, z, xor, b / 8, b % 8, 8) {
            p2(b) as int
        } else {
            0
        })
    }
}

fn test_bit(v: u64, n: u64) -> (r: bool)
    requires
        n < 64,
    ensures
        r == bit(v, n as nat),
{
    let p = pow2_u64(n);
    proof {
        lemma_p2_facts(n as nat);
    }
    (v / p) % 2 == 1
}

/// `MOR` and `MXOR` (and their immediate forms, whose `Z` has only its low
/// byte): the Boolean matrix product of `$Y` and `$Z`.
pub fn matrix_multiply(y: u64, z: u64, xor: bool) -> (r: u64)
    ensures
        r as int == matrix_bits(y, z, xor, 64),
{
    let mut result: u64 = 0;
    let mut b: u64 = 0;
    while b < 64
        invariant
            b <= 64,
            result as int == matrix_bits(y, z, xor, b as nat),
            result < p2(b as nat),
        decreases 64 - b,
    {
        let i = b / 8;
        let j = b % 8;
        let mut entry = false;
        let mut k: u64 = 0;
        while k < 8
            invariant
                k <= 8,
                i < 8,
                j < 8,
                entry == matrix_entry(y, z, xor, i as nat, j as nat, k as nat),
            decreases 8 - k,
        {
            let term = test_bit(y, 8 * k + j) && test_bit(z, 8 * i + k);
            entry = if xor {
                entry != term
            } else {
                entry || term
            };
            k = k + 1;
        }
        proof {
            lemma_p2_facts(b as nat);
        }
        if entry {
            let p = pow2_u64(b);
            result = result + p;
        }
        b = b + 1;
    }
    result
}

} // verus!
