use vstd::prelude::*;

verus! {

/// A JSON number, held exactly as the ratio `±mag / den`.
///
/// Integers read from a document have `den == 1`. Constructors never build a
/// number whose denominator is zero (see [`Number::wf`]).
#[derive(Clone, Copy, Debug, PartialEq, Eq, Structural)]
pub struct Number {
    /// Whether the number is below zero (only meaningful when `mag > 0`).
    pub neg: bool,
    /// The magnitude of the numerator.
    pub mag: u64,
    /// The denominator.
    pub den: u64,
}

impl Number {
    /// The denominator is positive.
    pub open spec fn wf(self) -> bool {
        self.den > 0
    }

    /// The signed numerator.
    pub open spec fn num(self) -> int {
        if self.neg {
            -(self.mag as int)
        } else {
            self.mag as int
        }
    }

    /// The number has no fractional part.
    pub open spec fn is_integral(self) -> bool {
        self.den > 0 && self.mag % self.den == 0
    }

    /// The number is an integer that is zero or more; its value is then
    /// `mag / den`.
    pub open spec fn is_count(self) -> bool {
        self.is_integral() && (self.mag == 0 || !self.neg)
    }

    /// A non-negative integer.
    pub fn from_u64(n: u64) -> (r: Number)
        ensures
            r.wf(),
            r.num() == n,
            r.den == 1,
    {
        Number { neg: false, mag: n, den: 1 }
    }

    /// A signed integer.
    pub fn from_i64(n: i64) -> (r: Number)
        ensures
            r.wf(),
            r.num() == n,
            r.den == 1,
    {
        if n < 0 {
            let m: u64 = if n == i64::MIN {
                9223372036854775808u64
            } else {
                (-n) as u64
            };
            Number { neg: true, mag: m, den: 1 }
        } else {
            Number { neg: false, mag: n as u64, den: 1 }
        }
    }

    /// The ratio `±mag / den`, or `None` where `den` is zero.
    pub fn ratio(neg: bool, mag: u64, den: u64) -> (r: Option<Number>)
        ensures
            den == 0 ==> r is None,
            den != 0 ==> r == Some(Number { neg, mag, den }),
    {
        if den == 0 {
            None
        } else {
            Some(Number { neg, mag, den })
        }
    }

    /// Whether the number has no fractional part.
    pub fn is_integer(&self) -> (r: bool)
        ensures
            r == self.is_integral(),
    {
        self.den > 0 && self.mag % self.den == 0
    }
}

/// `a <= b` as ratios.
pub open spec fn num_le(a: Number, b: Number) -> bool {
    a.num() * b.den <= b.num() * a.den
}

/// `a < b` as ratios.
pub open spec fn num_lt(a: Number, b: Number) -> bool {
    a.num() * b.den < b.num() * a.den
}

/// `x` is an integer multiple of `m` (for `m > 0`): `x / m` has no
/// fractional part, that is `x.den * m.mag` divides `x.mag * m.den`.
pub open spec fn num_multiple_of(x: Number, m: Number) -> bool {
    x.den * m.mag != 0 && (x.mag * m.den) % (x.den * m.mag) == 0
}

/// The product of two 64-bit values fits in 128 bits.
proof fn lemma_mul_bound(a: u64, b: u64)
    ensures
        0 <= (a as int) * (b as int) <= 0xffff_ffff_ffff_ffff_ffff_ffff_ffff_ffffint,
{
    assert(0 <= (a as int) * (b as int) <= (0xffff_ffff_ffff_ffffint) * (0xffff_ffff_ffff_ffffint))
        by (nonlinear_arith)
        requires
            a <= 0xffff_ffff_ffff_ffffu64,
            b <= 0xffff_ffff_ffff_ffffu64,
    ;
}

/// `a.mag * b.den` and `b.mag * a.den`, without overflow.
fn cross(a: Number, b: Number) -> (r: (u128, u128))
    ensures
        r.0 as int == a.mag as int * b.den as int,
        r.1 as int == b.mag as int * a.den as int,
{
    proof {
        lemma_mul_bound(a.mag, b.den);
        lemma_mul_bound(b.mag, a.den);
    }
    ((a.mag as u128) * (b.den as u128), (b.mag as u128) * (a.den as u128))
}

/// Whether `a <= b` (`lt == false`) or `a < b` (`lt == true`), as ratios.
pub fn compare(a: Number, b: Number, lt: bool) -> (r: bool)
    ensures
        r == if lt { num_lt(a, b) } else { num_le(a, b) },
{
    let (x, y) = cross(a, b);
    proof {
        assert(a.num() * b.den == (if a.neg { -(x as int) } else { x as int })) by (nonlinear_arith)
            requires
                x as int == a.mag as int * b.den as int,
                a.num() == (if a.neg { -(a.mag as int) } else { a.mag as int }),
        ;
        assert(b.num() * a.den == (if b.neg { -(y as int) } else { y as int })) by (nonlinear_arith)
            requires
                y as int == b.mag as int * a.den as int,
                b.num() == (if b.neg { -(b.mag as int) } else { b.mag as int }),
        ;
    }
    match (a.neg, b.neg) {
        (false, false) => if lt { x < y } else { x <= y },
        (true, true) => if lt { y < x } else { y <= x },
        (true, false) => if lt { x != 0 || y != 0 } else { true },
        (false, true) => if lt { false } else { x == 0 && y == 0 },
    }
}

/// Whether `x` is an integer multiple of `m`.
pub fn multiple_of(x: Number, m: Number) -> (r: bool)
    ensures
        r == num_multiple_of(x, m),
{
    proof {
        lemma_mul_bound(x.mag, m.den);
        lemma_mul_bound(x.den, m.mag);
    }
    let p = (x.mag as u128) * (m.den as u128);
    let q = (x.den as u128) * (m.mag as u128);
    if q == 0 {
        false
    } else {
        p % q == 0
    }
}

/// `2` to the power `n`.
pub open spec fn two_to(n: nat) -> nat
    decreases n,
{
    if n == 0 {
        1
    } else {
        2 * two_to((n - 1) as nat)
    }
}

/// Powers of two grow with the exponent and are positive.
proof fn lemma_two_to_grows(a: nat, b: nat)
    requires
        a <= b,
    ensures
        two_to(a) <= two_to(b),
        two_to(a) >= 1,
    decreases b,
{
    if b > 0 {
        if a < b {
            lemma_two_to_grows(a, (b - 1) as nat);
        }
        lemma_two_to_grows(0, (b - 1) as nat);
    }
}

/// Whether the IEEE 754 double with these bits is finite.
pub open spec fn f64_finite(bits: u64) -> bool {
    (bits / 0x10_0000_0000_0000) % 2048 != 2047
}

/// Whether the double with these bits has its sign bit set.
pub open spec fn f64_negative(bits: u64) -> bool {
    bits / 0x8000_0000_0000_0000 == 1
}

/// The significand of a finite double: its magnitude is
/// `f64_significand(bits) × 2^f64_exponent(bits)`.
pub open spec fn f64_significand(bits: u64) -> nat {
    let e = (bits / 0x10_0000_0000_0000) % 2048;
    let f = bits % 0x10_0000_0000_0000;
    if e == 0 {
        f as nat
    } else {
        (f + 0x10_0000_0000_0000) as nat
    }
}

/// The binary exponent of a finite double; see [`f64_significand`].
pub open spec fn f64_exponent(bits: u64) -> int {
    let e = (bits / 0x10_0000_0000_0000) % 2048;
    if e == 0 {
        -1074
    } else {
        e - 1075
    }
}

/// `m × 2^k` with factors of two moved from `m` into a negative `k` while
/// `m` is even: the same value over the smallest power of two.
pub open spec fn reduced(m: nat, k: int) -> (nat, int)
    decreases (if k < 0 {
        -k
    } else {
        0
    }),
{
    if k < 0 && m > 0 && m % 2 == 0 {
        reduced(m / 2, k + 1)
    } else {
        (m, k)
    }
}

/// Reducing keeps the value and moves the exponent towards zero.
proof fn lemma_reduced(m: nat, k: int)
    requires
        k < 0,
    ensures
        reduced(m, k).1 <= 0,
        reduced(m, k).1 >= k,
        reduced(m, k).0 * two_to((-k) as nat) == m * two_to((-reduced(m, k).1) as nat),
    decreases -k,
{
    if m > 0 && m % 2 == 0 {
        if k + 1 < 0 {
            lemma_reduced(m / 2, k + 1);
        }
        let (m2, k2) = reduced(m, k);
        assert(reduced(m, k) == reduced(m / 2, k + 1));
        assert(m2 * two_to((-(k + 1)) as nat) == (m / 2) * two_to((-k2) as nat));
        assert(two_to((-k) as nat) == 2 * two_to((-(k + 1)) as nat));
        assert(m2 * two_to((-k) as nat) == 2 * (m2 * two_to((-(k + 1)) as nat))) by (nonlinear_arith)
            requires
                two_to((-k) as nat) == 2 * two_to((-(k + 1)) as nat),
        ;
        assert(m == 2 * (m / 2));
        assert(m * two_to((-k2) as nat) == 2 * ((m / 2) * two_to((-k2) as nat))) by (nonlinear_arith)
            requires
                m == 2 * (m / 2),
        ;
    }
}

/// `m × 2^k`, where it fits in 64 bits.
fn shift_up(m: u64, k: u64) -> (r: Option<u64>)
    requires
        m > 0,
    ensures
        r is Some <==> m * two_to(k as nat) <= u64::MAX,
        r is Some ==> r->0 == m * two_to(k as nat),
{
    let mut mag = m;
    let mut i: u64 = 0;
    assert(two_to(0) == 1);
    while i < k
        invariant
            i <= k,
            m > 0,
            mag == m * two_to(i as nat),
        decreases k - i,
    {
        proof {
            assert(m * two_to((i + 1) as nat) == 2 * mag) by (nonlinear_arith)
                requires
                    mag == m * two_to(i as nat),
                    two_to((i + 1) as nat) == 2 * two_to(i as nat),
            ;
        }
        if mag > 0x7fff_ffff_ffff_ffff {
            proof {
                lemma_two_to_grows((i + 1) as nat, k as nat);
                assert(m * two_to((i + 1) as nat) <= m * two_to(k as nat)) by (nonlinear_arith)
                    requires
                        two_to((i + 1) as nat) <= two_to(k as nat),
                ;
            }
            return None;
        }
        mag = mag * 2;
        i = i + 1;
    }
    Some(mag)
}

/// `2^n`, for `n <= 63`.
fn power_of_two(n: u64) -> (r: u64)
    requires
        n <= 63,
    ensures
        r == two_to(n as nat),
{
    let mut den: u64 = 1;
    let mut i: u64 = 0;
    proof {
        reveal_with_fuel(two_to, 64);
    }
    assert(two_to(63) == 0x8000_0000_0000_0000);
    while i < n
        invariant
            i <= n,
            n <= 63,
            den == two_to(i as nat),
            den * two_to((63 - i) as nat) == 0x8000_0000_0000_0000,
        decreases n - i,
    {
        proof {
            assert(two_to((63 - i) as nat) == 2 * two_to((63 - i - 1) as nat));
            lemma_two_to_grows(0, (63 - i - 1) as nat);
            assert(den * 2 <= 0x8000_0000_0000_0000) by (nonlinear_arith)
                requires
                    den * (2 * two_to((63 - i - 1) as nat)) == 0x8000_0000_0000_0000,
                    two_to((63 - i - 1) as nat) >= 1,
            ;
            assert((den * 2) * two_to((63 - i - 1) as nat) == den * (2 * two_to((63 - i - 1) as nat)))
                by (nonlinear_arith);
        }
        den = den * 2;
        i = i + 1;
    }
    den
}

/// `m × 2^-nk` over the smallest power of two, where that is at most `2^63`.
fn shift_down(m: u64, nk: u64) -> (r: Option<(u64, u64)>)
    requires
        m > 0,
        1 <= nk <= 1074,
    ensures
        ({
            let (m2, k2) = reduced(m as nat, -(nk as int));
            &&& (r is Some <==> -k2 <= 63)
            &&& (r matches Some((a, b)) ==> a == m2 && b == two_to((-k2) as nat))
            &&& (r matches Some((a, b)) ==> a * two_to(nk as nat) == m * b)
        }),
{
    let mut mm = m;
    let mut n = nk;
    while n > 0 && mm % 2 == 0
        invariant
            mm > 0,
            n <= 1074,
            reduced(mm as nat, -(n as int)) == reduced(m as nat, -(nk as int)),
        decreases n,
    {
        mm = mm / 2;
        n = n - 1;
    }
    proof {
        lemma_reduced(m as nat, -(nk as int));
    }
    if n > 63 {
        return None;
    }
    Some((mm, power_of_two(n)))
}

impl Number {
    /// The value of the IEEE 754 double with these bits, where a ratio
    /// `mag / den` with `den` a power of two up to `2^63` holds it exactly.
    /// Infinities and NaNs give `None`.
    pub fn from_f64_bits(bits: u64) -> (r: Option<Number>)
        ensures
            !f64_finite(bits) ==> r is None,
            f64_finite(bits) && f64_significand(bits) == 0 ==> r == Some(
                Number { neg: f64_negative(bits), mag: 0, den: 1 },
            ),
            f64_finite(bits) && f64_significand(bits) > 0 && f64_exponent(bits) >= 0 ==> {
                let v = f64_significand(bits) * two_to(f64_exponent(bits) as nat);
                &&& (r is Some <==> v <= u64::MAX)
                &&& (r is Some ==> r == Some(Number { neg: f64_negative(bits), mag: v as u64, den: 1 }))
            },
            f64_finite(bits) && f64_significand(bits) > 0 && f64_exponent(bits) < 0 ==> {
                let (m2, k2) = reduced(f64_significand(bits), f64_exponent(bits));
                &&& (r is Some <==> -k2 <= 63)
                &&& (r is Some ==> r == Some(
                    Number { neg: f64_negative(bits), mag: m2 as u64, den: two_to((-k2) as nat) as u64 },
                ))
                &&& (r is Some ==> r->0.mag * two_to((-f64_exponent(bits)) as nat) == f64_significand(bits)
                    * r->0.den)
            },
    {
        let neg = bits / 0x8000_0000_0000_0000 == 1;
        let e = (bits / 0x10_0000_0000_0000) % 2048;
        let f = bits % 0x10_0000_0000_0000;
        if e == 2047 {
            return None;
        }
        let m: u64 = if e == 0 {
            f
        } else {
            f + 0x10_0000_0000_0000
        };
        assert(m == f64_significand(bits));
        if m == 0 {
            return Some(Number { neg, mag: 0, den: 1 });
        }
        if e >= 1075 {
            assert(f64_exponent(bits) == e - 1075);
            match shift_up(m, e - 1075) {
                Some(mag) => Some(Number { neg, mag, den: 1 }),
                None => None,
            }
        } else {
            let nk: u64 = if e == 0 {
                1074
            } else {
                1075 - e
            };
            assert(f64_exponent(bits) == -(nk as int));
            match shift_down(m, nk) {
                Some((mag, den)) => Some(Number { neg, mag, den }),
                None => None,
            }
        }
    }
}

} // verus!
