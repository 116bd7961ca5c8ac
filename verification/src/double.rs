//! Numbers with a fraction, as the settings hold them.
//!
//! A number is the bit pattern of a double of IEEE 754, by which it is compared and clamped,
//! together with the text that is shown for it. What a pattern is worth is stated as a whole
//! number of the smallest steps between doubles, of which one makes up two to the power -1074.

use vstd::arithmetic::power2::{
    lemma_pow2_adds, lemma_pow2_strictly_increases, lemma_pow2_pos, lemma2_to64, pow2,
};
use vstd::prelude::*;

verus! {

/// A double by its bits, and the text that is shown for it.
pub struct Double {
    pub bits: u64,
    pub text: String,
}

/// What a [`Double`] holds.
#[verifier::ext_equal]
pub struct DoubleV {
    pub bits: u64,
    pub text: Seq<char>,
}

impl View for Double {
    type V = DoubleV;

    open spec fn view(&self) -> DoubleV {
        DoubleV { bits: self.bits, text: self.text@ }
    }
}

impl Clone for Double {
    fn clone(&self) -> (r: Self)
        ensures
            r == *self,
    {
        Double { bits: self.bits, text: self.text.clone() }
    }
}

pub const SIGN: u64 = 0x8000_0000_0000_0000;

pub const INFINITE: u64 = 0x7ff0_0000_0000_0000;

pub const ZERO: u64 = 0;

pub const ONE: u64 = 0x3ff0_0000_0000_0000;

pub const ONE_AND_A_HALF: u64 = 0x3ff8_0000_0000_0000;

pub const ONE_POINT_SEVEN: u64 = 0x3ffb_3333_3333_3333;

pub const TWENTY: u64 = 0x4034_0000_0000_0000;

pub const THIRTY: u64 = 0x403e_0000_0000_0000;

pub const THREE_HUNDRED: u64 = 0x4072_c000_0000_0000;

pub const THREE_THOUSAND_SIX_HUNDRED: u64 = 0x40ac_2000_0000_0000;

/// The pattern without its sign.
pub open spec fn magnitude(bits: u64) -> int {
    if bits >= SIGN {
        bits - SIGN
    } else {
        bits as int
    }
}

/// Whether the pattern is that of a number, neither infinite nor undefined.
pub open spec fn finite(bits: u64) -> bool {
    magnitude(bits) < INFINITE
}

/// Whether the pattern stands for no number at all.
pub open spec fn undefined(bits: u64) -> bool {
    magnitude(bits) > INFINITE
}

/// What a pattern without sign is worth, in smallest steps; an infinite one is worth more than
/// all finite ones.
pub open spec fn size(m: int) -> int {
    let exponent = m / 0x10_0000_0000_0000;
    let fraction = m % 0x10_0000_0000_0000;
    if exponent == 0 {
        fraction
    } else {
        (0x10_0000_0000_0000 + fraction) * pow2((exponent - 1) as nat)
    }
}

/// What a pattern is worth, in smallest steps.
pub open spec fn worth(bits: u64) -> int {
    if bits >= SIGN {
        -size(magnitude(bits))
    } else {
        size(magnitude(bits))
    }
}

/// What a whole number is worth, in smallest steps.
pub open spec fn whole(n: int) -> int {
    n * pow2(1074)
}

/// Whether a number is less than another; nothing is less or more than an undefined one.
pub open spec fn less(a: u64, b: u64) -> bool {
    !undefined(a) && !undefined(b) && worth(a) < worth(b)
}

proof fn lemma_size_grows(m: int, n: int)
    requires
        0 <= m < n,
    ensures
        0 <= size(m) < size(n),
{
    let k = 0x10_0000_0000_0000int;
    let e = m / k;
    let f = m % k;
    let g = n / k;
    let h = n % k;
    assert(m == e * k + f);
    assert(n == g * k + h);
    assert(e <= g);
    if e == g {
        assert(f < h);
        if e > 0 {
            lemma_pow2_pos((e - 1) as nat);
            let p = pow2((e - 1) as nat) as int;
            assert((k + f) * p < (k + h) * p) by (nonlinear_arith)
                requires
                    f < h,
                    p > 0,
            ;
            assert((k + f) * p >= 0) by (nonlinear_arith)
                requires
                    k + f >= 0,
                    p > 0,
            ;
        }
    } else if e == 0 {
        lemma_pow2_pos((g - 1) as nat);
        let q = pow2((g - 1) as nat) as int;
        assert((k + h) * q >= k + h) by (nonlinear_arith)
            requires
                k + h >= 0,
                q >= 1,
        ;
    } else {
        lemma_pow2_pos((e - 1) as nat);
        lemma_pow2_adds(1, (e - 1) as nat);
        lemma2_to64();
        let p = pow2((e - 1) as nat) as int;
        let q = pow2((g - 1) as nat) as int;
        if e < g - 1 {
            lemma_pow2_strictly_increases(e as nat, (g - 1) as nat);
        }
        assert(pow2(e as nat) == 2 * p);
        assert(q >= 2 * p);
        assert((k + f) * p < (k + h) * q) by (nonlinear_arith)
            requires
                0 <= f < k,
                0 <= h,
                k > 0,
                p > 0,
                q >= 2 * p,
        ;
        assert((k + f) * p >= 0) by (nonlinear_arith)
            requires
                k + f >= 0,
                p > 0,
        ;
    }
}

/// Patterns without sign are worth as much as they are large.
proof fn lemma_size_order(m: int, n: int)
    requires
        0 <= m,
        0 <= n,
    ensures
        m < n <==> size(m) < size(n),
        size(m) >= 0,
        size(m) == 0 <==> m == 0,
        size(n) >= 0,
        size(n) == 0 <==> n == 0,
{
    if m < n {
        lemma_size_grows(m, n);
    } else if n < m {
        lemma_size_grows(n, m);
    }
    assert(size(0) == 0);
    if m > 0 {
        lemma_size_grows(0, m);
    }
    if n > 0 {
        lemma_size_grows(0, n);
    }
}

/// Positive patterns are worth as much as they are large.
pub proof fn lemma_worth_order(a: u64, b: u64)
    requires
        a < b < SIGN,
    ensures
        0 <= worth(a) < worth(b),
{
    lemma_size_order(a as int, b as int);
}

/// What is no less than zero and no more than a finite number is finite.
pub proof fn lemma_finite(a: u64, b: u64)
    requires
        !undefined(a),
        b < INFINITE,
        worth(a) >= 0,
        worth(a) <= worth(b),
    ensures
        finite(a),
{
    lemma_size_order(magnitude(a), magnitude(b));
    lemma_size_order(magnitude(b), magnitude(a));
}

/// Whether a number is less than another.
pub fn is_less(a: u64, b: u64) -> (r: bool)
    ensures
        r == less(a, b),
{
    let m: u64 = if a >= SIGN { a - SIGN } else { a };
    let n: u64 = if b >= SIGN { b - SIGN } else { b };
    proof {
        lemma_size_order(m as int, n as int);
        lemma_size_order(n as int, m as int);
    }
    if m > INFINITE || n > INFINITE {
        false
    } else if a >= SIGN {
        if b >= SIGN {
            n < m
        } else {
            m > 0 || n > 0
        }
    } else {
        if b >= SIGN {
            false
        } else {
            m < n
        }
    }
}

/// Whether the number is neither infinite nor undefined.
pub fn is_finite(a: u64) -> (r: bool)
    ensures
        r == finite(a),
{
    if a >= SIGN {
        a - SIGN < INFINITE
    } else {
        a < INFINITE
    }
}

/// A number between two bounds: the lower one where it is below, the upper one where it is
/// above. An undefined number stays.
pub open spec fn clamped(v: DoubleV, lo: DoubleV, hi: DoubleV) -> DoubleV {
    if less(v.bits, lo.bits) {
        lo
    } else if less(hi.bits, v.bits) {
        hi
    } else {
        v
    }
}

/// A number between two bounds; the lower one where it is infinite or undefined.
pub open spec fn settled(v: DoubleV, lo: DoubleV, hi: DoubleV) -> DoubleV {
    if finite(v.bits) {
        clamped(v, lo, hi)
    } else {
        lo
    }
}

/// A number, or the bound where it is below it or undefined.
pub open spec fn at_least(v: DoubleV, lo: DoubleV) -> DoubleV {
    if undefined(v.bits) || less(v.bits, lo.bits) {
        lo
    } else {
        v
    }
}

/// Puts a number between two bounds; an undefined one stays.
pub fn clamp(v: Double, lo: Double, hi: Double) -> (r: Double)
    ensures
        r@ == clamped(v@, lo@, hi@),
{
    if is_less(v.bits, lo.bits) {
        lo
    } else if is_less(hi.bits, v.bits) {
        hi
    } else {
        v
    }
}

/// Puts a number between two bounds; an infinite or undefined one becomes the lower bound.
pub fn settle(v: Double, lo: Double, hi: Double) -> (r: Double)
    ensures
        r@ == settled(v@, lo@, hi@),
{
    if is_finite(v.bits) {
        clamp(v, lo, hi)
    } else {
        lo
    }
}

/// The larger of a number and a bound; the bound where the number is undefined.
pub fn raise(v: Double, lo: Double) -> (r: Double)
    ensures
        r@ == at_least(v@, lo@),
{
    let m: u64 = if v.bits >= SIGN { v.bits - SIGN } else { v.bits };
    if m > INFINITE || is_less(v.bits, lo.bits) {
        lo
    } else {
        v
    }
}

/// A number by its bits and its text.
pub open spec fn valued(bits: u64, text: Seq<char>) -> DoubleV {
    DoubleV { bits, text }
}

/// A number by its bits and its text.
pub fn make(bits: u64, text: &str) -> (r: Double)
    ensures
        r@ == valued(bits, text@),
{
    Double { bits, text: text.to_string() }
}

proof fn lemma_size_of(m: int, exponent: int, fraction: int, n: int)
    requires
        m == exponent * 0x10_0000_0000_0000 + fraction,
        0 <= fraction < 0x10_0000_0000_0000,
        1023 <= exponent < 1075,
        (0x10_0000_0000_0000 + fraction) * pow2((exponent - 1) as nat) == n * 0x10_0000_0000_0000
            * pow2(1022),
    ensures
        size(m) == whole(n),
{
    assert(m / 0x10_0000_0000_0000 == exponent);
    assert(m % 0x10_0000_0000_0000 == fraction);
    lemma_pow2_adds(52, 1022);
    lemma2_to64();
    lemma_pow2_adds(32, 20);
    assert(pow2(52) == 0x10_0000_0000_0000);
    let a = n;
    let b = 0x10_0000_0000_0000int;
    let c = pow2(1022) as int;
    assert(a * b * c == a * (b * c)) by (nonlinear_arith);
}

/// The bounds of the settings are the doubles of the whole numbers that they are named after.
pub proof fn lemma_bounds_are_whole()
    ensures
        worth(ZERO) == whole(0),
        worth(ONE) == whole(1),
        worth(TWENTY) == whole(20),
        worth(THIRTY) == whole(30),
        worth(THREE_HUNDRED) == whole(300),
        worth(THREE_THOUSAND_SIX_HUNDRED) == whole(3600),
        2 * worth(ONE_AND_A_HALF) == whole(3),
{
    let c = pow2(1022) as int;
    let k = 0x10_0000_0000_0000int;
    lemma2_to64();
    lemma_pow2_adds(1, 1022);
    lemma_pow2_adds(4, 1022);
    lemma_pow2_adds(8, 1022);
    lemma_pow2_adds(11, 1022);
    assert(size(0) == 0);
    lemma_size_of(ONE as int, 1023, 0, 1);
    lemma_size_of(TWENTY as int, 1027, 0x4_0000_0000_0000, 20);
    lemma_size_of(THIRTY as int, 1027, 0xe_0000_0000_0000, 30);
    lemma_size_of(THREE_HUNDRED as int, 1031, 0x2_c000_0000_0000, 300);
    lemma_size_of(THREE_THOUSAND_SIX_HUNDRED as int, 1034, 0xc_2000_0000_0000, 3600);
    lemma_pow2_adds(32, 20);
    lemma_pow2_adds(52, 1022);
    let h = ONE_AND_A_HALF as int;
    assert(h / k == 1023);
    assert(h % k == 0x8_0000_0000_0000);
    assert(2 * ((k + 0x8_0000_0000_0000) * c) == 3 * (k * c)) by (nonlinear_arith)
        requires
            k == 0x10_0000_0000_0000,
    ;
}

/// A settled number is finite and lies between the bounds, and settling it again keeps it.
pub proof fn law_settled_is_between(v: DoubleV, lo: DoubleV, hi: DoubleV)
    requires
        finite(lo.bits),
        finite(hi.bits),
        worth(lo.bits) <= worth(hi.bits),
    ensures
        finite(settled(v, lo, hi).bits),
        worth(lo.bits) <= worth(settled(v, lo, hi).bits) <= worth(hi.bits),
        settled(settled(v, lo, hi), lo, hi) == settled(v, lo, hi),
        finite(v.bits) && worth(lo.bits) <= worth(v.bits) <= worth(hi.bits) ==> settled(v, lo, hi)
            == v,
{
}

/// Of the bits of a number the highest is its sign, the next eleven its exponent and the rest its
/// fraction: it is infinite or undefined where all bits of the exponent are set, and undefined where any
/// of the fraction is set beside.
pub proof fn law_full_exponent_is_no_number(bits: u64)
    ensures
        ({
            let exponent = bits as int / 0x10_0000_0000_0000 % 2048;
            let fraction = bits as int % 0x10_0000_0000_0000;
            &&& finite(bits) <==> exponent != 2047
            &&& undefined(bits) <==> exponent == 2047 && fraction != 0
        }),
{
}

/// The sign turns what a number is worth around; one more in the exponent doubles it, and one more in
/// the fraction makes it more.
pub proof fn law_bits_tell_what_a_number_is_worth(bits: u64)
    requires
        bits < INFINITE,
    ensures
        worth((bits + SIGN) as u64) == -worth(bits),
        worth((bits + 1) as u64) > worth(bits),
        bits >= 0x10_0000_0000_0000 ==> worth((bits + 0x10_0000_0000_0000) as u64) == 2 * worth(bits),
        bits < 0x10_0000_0000_0000 ==> worth(bits) == bits,
{
    lemma_worth_order(bits, (bits + 1) as u64);
    let k = 0x10_0000_0000_0000int;
    let e = bits as int / k;
    let f = bits as int % k;
    if e > 0 {
        assert((bits + k) / k == e + 1);
        assert((bits + k) % k == f);
        lemma_pow2_adds(1, (e - 1) as nat);
        lemma2_to64();
        let p = pow2((e - 1) as nat) as int;
        assert((k + f) * (2 * p) == 2 * ((k + f) * p)) by (nonlinear_arith);
    }
}

} // verus!
