//! Half floats, made from 32-bit floats by their bits.
use vstd::prelude::*;
use crate::f32bits::F32;

verus! {

/// The exponent field of a float.
pub open spec fn exponent(x: F32) -> int {
    (x.bits as int / 0x80_0000) % 256
}

/// The fraction field of a float.
pub open spec fn fraction(x: F32) -> int {
    x.bits as int % 0x80_0000
}

/// Two to the power `k`, for the shifts of small halves.
pub open spec fn power(k: nat) -> int
    decreases k,
{
    if k == 0 {
        1
    } else {
        2 * power((k - 1) as nat)
    }
}

/// The bits of a half without its sign: what a float's magnitude becomes. An infinity stays one, what
/// is no number stays none, what is too large becomes an infinity and what is too small nothing; of
/// anything else the bits that do not fit are cut off.
pub open spec fn half_magnitude(x: F32) -> int {
    let e = exponent(x);
    let m = fraction(x);
    if e == 255 {
        if m != 0 {
            0x7e00
        } else {
            0x7c00
        }
    } else if e >= 143 {
        0x7c00
    } else if e <= 112 {
        if e < 102 {
            0
        } else {
            (m + 0x80_0000) / power((126 - e) as nat)
        }
    } else {
        (e - 112) * 1024 + m / 8192
    }
}

/// The bits of the half that a float becomes.
pub open spec fn half_of(x: F32) -> int {
    (if x.bits >= 0x8000_0000 {
        0x8000int
    } else {
        0
    }) + half_magnitude(x)
}

/// Halving as often as the power says.
fn cut(m: u32, k: u32) -> (r: u32)
    requires
        k <= 24,
    ensures
        r == m as int / power(k as nat),
{
    let mut r: u32 = m;
    let mut i: u32 = 0;
    while i < k
        invariant
            i <= k <= 24,
            r == m as int / power(i as nat),
            power(i as nat) > 0,
        decreases k - i,
    {
        proof {
            vstd::arithmetic::div_mod::lemma_div_denominator(m as int, power(i as nat), 2);
            assert(power(i as nat) * 2 == power((i + 1) as nat)) by {
                assert(power((i + 1) as nat) == 2 * power(i as nat));
            }
        }
        r = r / 2;
        i = i + 1;
    }
    r
}

/// The powers of two that matter here are large enough for the result to fit.
proof fn small_halves_fit(m: int, e: int)
    requires
        0 <= m < 0x80_0000,
        102 <= e <= 112,
    ensures
        0 <= (m + 0x80_0000) / power((126 - e) as nat) <= 1023,
{
    assert(power(14) == 16384) by {
        reveal_with_fuel(power, 15);
    }
    power_grows(14, (126 - e) as nat);
    let p = power((126 - e) as nat);
    let q = (m + 0x80_0000) / p;
    vstd::arithmetic::div_mod::lemma_fundamental_div_mod(m + 0x80_0000, p);
    assert(0 <= q <= 1023) by (nonlinear_arith)
        requires
            p >= 16384,
            m + 0x80_0000 == p * q + (m + 0x80_0000) % p,
            0 <= (m + 0x80_0000) % p < p,
            0 <= m < 0x80_0000,
    ;
}

/// Powers of two grow.
proof fn power_grows(a: nat, b: nat)
    requires
        a <= b,
    ensures
        0 < power(a) <= power(b),
    decreases b,
{
    if a < b {
        power_grows(a, (b - 1) as nat);
    } else if a > 0 {
        power_grows((a - 1) as nat, (a - 1) as nat);
    }
}

/// Every half fits its sixteen bits, and its magnitude fifteen.
pub proof fn half_fits(x: F32)
    ensures
        0 <= half_magnitude(x) < 0x8000,
        0 <= half_of(x) < 0x1_0000,
{
    let e = exponent(x);
    if 102 <= e <= 112 {
        small_halves_fit(fraction(x), e);
    }
}

/// The bits of the half that a float becomes.
pub fn f16_bits(x: F32) -> (r: u16)
    ensures
        r == half_of(x),
{
    proof {
        half_fits(x);
    }
    let e: u32 = (x.bits / 0x80_0000) % 256;
    let m: u32 = x.bits % 0x80_0000;
    let sign: u32 = if x.bits >= 0x8000_0000 {
        0x8000
    } else {
        0
    };
    let magnitude: u32 = if e == 255 {
        if m != 0 {
            0x7e00
        } else {
            0x7c00
        }
    } else if e >= 143 {
        0x7c00
    } else if e <= 112 {
        if e < 102 {
            0
        } else {
            cut(m + 0x80_0000, 126 - e)
        }
    } else {
        (e - 112) * 1024 + m / 8192
    };
    (sign + magnitude) as u16
}

/// The float that a half of the ordinary range (neither tiny nor beyond all numbers) stands for.
pub open spec fn widened(h: u16) -> F32 {
    let s = h as int / 0x8000;
    let e = (h as int / 1024) % 32;
    let m = h as int % 1024;
    F32 { bits: (s * 0x8000_0000 + (e + 112) * 0x80_0000 + m * 8192) as u32 }
}

/// Halves of the ordinary range survive the way to a float and back.
pub proof fn ordinary_halves_round_trip(h: u16)
    requires
        1 <= (h as int / 1024) % 32 <= 30,
    ensures
        half_of(widened(h)) == h,
{
    let s = h as int / 0x8000;
    let e = (h as int / 1024) % 32;
    let m = h as int % 1024;
    let x = widened(h);
    let b = s * 0x8000_0000 + (e + 112) * 0x80_0000 + m * 8192;
    assert(0 <= s <= 1);
    assert(x.bits == b);
    assert(fraction(x) == m * 8192) by {
        vstd::arithmetic::div_mod::lemma_fundamental_div_mod_converse(
            b,
            0x80_0000,
            s * 256 + e + 112,
            m * 8192,
        );
    }
    assert(b / 0x80_0000 == s * 256 + e + 112) by {
        vstd::arithmetic::div_mod::lemma_fundamental_div_mod_converse(
            b,
            0x80_0000,
            s * 256 + e + 112,
            m * 8192,
        );
    }
    assert(exponent(x) == e + 112);
    assert((m * 8192) / 8192 == m);
    assert(h == s * 0x8000 + e * 1024 + m);
}

/// Larger magnitudes never become smaller halves.
pub proof fn halves_keep_order(x: F32, y: F32)
    requires
        x.magnitude() <= y.magnitude() <= 0x7f80_0000,
    ensures
        half_magnitude(x) <= half_magnitude(y),
{
    let (ex, mx) = (exponent(x), fraction(x));
    let (ey, my) = (exponent(y), fraction(y));
    fields(x);
    fields(y);
    half_fits(x);
    half_fits(y);
    assert(ex <= ey);
    if ex == ey {
        assert(mx <= my);
        if 102 <= ex <= 112 {
            power_grows(0, (126 - ex) as nat);
            vstd::arithmetic::div_mod::lemma_div_is_ordered(
                mx + 0x80_0000,
                my + 0x80_0000,
                power((126 - ex) as nat),
            );
        }
    } else if 102 <= ex && ey <= 112 {
        let a = power((126 - ey) as nat);
        let b = power((126 - ex) as nat);
        power_grows((126 - ey + 1) as nat, (126 - ex) as nat);
        power_grows(0, (126 - ey) as nat);
        assert(b >= 2 * a);
        let p = (mx + 0x80_0000) / b;
        let q = (my + 0x80_0000) / a;
        vstd::arithmetic::div_mod::lemma_fundamental_div_mod(mx + 0x80_0000, b);
        vstd::arithmetic::div_mod::lemma_fundamental_div_mod(my + 0x80_0000, a);
        assert(p <= q) by (nonlinear_arith)
            requires
                a > 0,
                b >= 2 * a,
                mx + 0x80_0000 == b * p + (mx + 0x80_0000) % b,
                0 <= (mx + 0x80_0000) % b,
                my + 0x80_0000 == a * q + (my + 0x80_0000) % a,
                (my + 0x80_0000) % a < a,
                0 <= mx < 0x80_0000,
                0 <= my,
        ;
    } else if 102 <= ex <= 112 {
        small_halves_fit(mx, ex);
        if ey < 143 {
            assert(half_magnitude(y) >= 1024);
        }
    }
}

/// A float's magnitude is made of its fields.
proof fn fields(x: F32)
    ensures
        x.magnitude() == exponent(x) * 0x80_0000 + fraction(x),
        0 <= fraction(x) < 0x80_0000,
        0 <= exponent(x) < 256,
{
    let b = x.bits as int;
    assert(b == (b / 0x80_0000) * 0x80_0000 + b % 0x80_0000);
    assert(b / 0x80_0000 == (b / 0x8000_0000) * 256 + (b / 0x80_0000) % 256);
}

} // verus!
