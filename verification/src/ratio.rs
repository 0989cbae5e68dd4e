//! Exact rational numbers kept in lowest terms.
//!
//! Layout geometry is a quotient of pixel counts, so it is carried as a
//! fraction of two integers instead of being rounded. A [`Ratio`] stands for
//! the real number `num / den`; its view `r@` is that real number, and all
//! contracts in this crate speak about the view.

use vstd::arithmetic::div_mod::lemma_truncate_middle;
use vstd::arithmetic::div_mod::lemma_fundamental_div_mod;
use vstd::math::abs;
use vstd::prelude::*;

verus! {

/// Greatest common divisor of two natural numbers, by Euclid's recurrence.
/// `gcd(0, 0)` is `0`.
pub open spec fn gcd(a: nat, b: nat) -> nat
    decreases b,
{
    if b == 0 {
        a
    } else {
        gcd(b, a % b)
    }
}

/// The real number `num / den`.
pub open spec fn quotient(num: int, den: int) -> real {
    num as real / den as real
}

/// Two fractions with positive denominators stand for the same real number
/// exactly when their cross products agree.
pub proof fn lemma_quotient_eq(a: int, b: int, c: int, d: int)
    by (nonlinear_arith)
    requires
        b > 0,
        d > 0,
    ensures
        quotient(a, b) == quotient(c, d) <==> a * d == c * b,
{
}

/// `gcd(a, b)` is positive unless both arguments are zero, and it divides
/// both: the returned pair holds the two cofactors.
pub proof fn lemma_gcd_cofactors(a: nat, b: nat) -> (co: (nat, nat))
    ensures
        a == gcd(a, b) * co.0,
        b == gcd(a, b) * co.1,
        a > 0 || b > 0 ==> gcd(a, b) > 0,
    decreases b,
{
    if b == 0 {
        assert(a == a * 1 && 0 == a * 0) by (nonlinear_arith);
        (1, 0)
    } else {
        let g = gcd(b, a % b);
        let (p, q) = lemma_gcd_cofactors(b, a % b);
        lemma_fundamental_div_mod(a as int, b as int);
        let k = a / b;
        assert(a == g * (p * k + q)) by (nonlinear_arith)
            requires
                a == b * k + a % b,
                b == g * p,
                a % b == g * q,
        ;
        (p * k + q, p)
    }
}

/// Scaling both arguments scales the greatest common divisor.
pub proof fn lemma_gcd_scales(k: nat, a: nat, b: nat)
    requires
        k > 0,
    ensures
        gcd(k * a, k * b) == k * gcd(a, b),
    decreases b,
{
    if b == 0 {
        assert(k * b == 0) by (nonlinear_arith)
            requires
                b == 0,
        ;
    } else {
        lemma_truncate_middle(a as int, k as int, b as int);
        assert((k * a) % (k * b) == k * (a % b));
        lemma_gcd_scales(k, b, a % b);
    }
}

/// An exact rational number `num / den`.
#[derive(Clone, Copy, Debug, PartialEq, Eq, Structural)]
pub struct Ratio {
    /// Numerator; carries the sign.
    pub num: i128,
    /// Denominator; positive in every well-formed value.
    pub den: u64,
}

impl View for Ratio {
    type V = real;

    open spec fn view(&self) -> real {
        quotient(self.num as int, self.den as int)
    }
}

impl Ratio {
    /// Well-formedness: the denominator is positive and the fraction is in
    /// lowest terms, so every rational number has exactly one well-formed
    /// representation.
    pub open spec fn wf(self) -> bool {
        &&& self.den > 0
        &&& gcd(abs(self.num as int), self.den as nat) == 1
    }

    /// The well-formed fraction equal to `num / den`, or `None` when `den`
    /// is zero.
    pub fn new(num: i128, den: u64) -> (out: Option<Ratio>)
        ensures
            out is None <==> den == 0,
            out matches Some(r) ==> r.wf() && r@ == quotient(num as int, den as int),
    {
        if den == 0 {
            None
        } else {
            Some(Ratio::reduced(num, den))
        }
    }

    /// The well-formed fraction equal to `num / den`.
    pub(crate) fn reduced(num: i128, den: u64) -> (r: Ratio)
        requires
            den > 0,
        ensures
            r.wf(),
            r@ == quotient(num as int, den as int),
    {
        let m: u128 = magnitude(num);
        let g: u128 = gcd_of(m, den as u128);
        proof {
            let (p, q) = lemma_gcd_cofactors(m as nat, den as nat);
            lemma_gcd_scales(g as nat, p, q);
            lemma_reduce(m as int, den as int, g as int, p as int, q as int, gcd(p, q) as int);
        }
        let p: u128 = m / g;
        let q: u128 = den as u128 / g;
        let n: i128 = if num >= 0 {
            p as i128
        } else {
            -1 - ((p - 1) as i128)
        };
        let r = Ratio { num: n, den: q as u64 };
        proof {
            assert(abs(n as int) == p);
            assert(n * den == num * q) by (nonlinear_arith)
                requires
                    m == g * p,
                    den == g * q,
                    (num >= 0 && n == p && num == m) || (num < 0 && n == -p && num == -m),
            ;
            lemma_quotient_eq(n as int, q as int, num as int, den as int);
        }
        r
    }

    /// The whole number `n` as a fraction.
    pub fn from_integer(n: i128) -> (r: Ratio)
        ensures
            r.wf(),
            r@ == n as real,
            r.num == n,
            r.den == 1,
    {
        let r = Ratio { num: n, den: 1 };
        proof {
            let m = abs(n as int);
            assert(m % 1 == 0);
            assert(gcd(1, 0) == 1);
            assert(gcd(m, 1) == gcd(1, m % 1));
            lemma_quotient_whole(n as int);
        }
        r
    }

    /// Zero.
    pub fn zero() -> (r: Ratio)
        ensures
            r.wf(),
            r@ == 0real,
            r.num == 0,
            r.den == 1,
    {
        Ratio::from_integer(0)
    }
}

/// A whole number over one is that number.
pub proof fn lemma_quotient_whole(n: int)
    by (nonlinear_arith)
    ensures
        quotient(n, 1) == n as real,
{
}

/// Two well-formed fractions that stand for the same real number are the
/// same fraction.
pub proof fn lemma_wf_unique(a: Ratio, b: Ratio)
    requires
        a.wf(),
        b.wf(),
        a@ == b@,
    ensures
        a == b,
{
    lemma_quotient_eq(a.num as int, a.den as int, b.num as int, b.den as int);
    let ma = abs(a.num as int);
    let mb = abs(b.num as int);
    let da = a.den as nat;
    let db = b.den as nat;
    assert(ma * db == mb * da && db * da == da * db) by (nonlinear_arith)
        requires
            a.num * b.den == b.num * a.den,
            ma == abs(a.num as int),
            mb == abs(b.num as int),
            da == a.den,
            db == b.den,
            da > 0,
            db > 0,
    ;
    lemma_gcd_scales(db, ma, da);
    lemma_gcd_scales(da, mb, db);
    assert(db * 1 == db && da * 1 == da);
    assert(db * ma == ma * db && da * mb == mb * da) by (nonlinear_arith);
    assert(da == db);
    assert(a.num == b.num) by (nonlinear_arith)
        requires
            a.num * b.den == b.num * a.den,
            a.den == b.den,
            a.den > 0,
    ;
}

/// Dividing `m = g * p` and `d = g * q` by `g` is exact, and where `g` times
/// the gcd `h` of the cofactors is `g` again, the cofactors are coprime.
proof fn lemma_reduce(m: int, d: int, g: int, p: int, q: int, h: int)
    by (nonlinear_arith)
    requires
        m >= 0,
        d > 0,
        g >= 0,
        p >= 0,
        q >= 0,
        h >= 0,
        m == g * p,
        d == g * q,
        g == g * h,
    ensures
        g > 0,
        h == 1,
        q > 0,
        m / g == p,
        d / g == q,
        p <= m,
        q <= d,
        m > 0 ==> p > 0,
{
}

/// The absolute value of `n`, which fits an unsigned integer of the same
/// width even for the least `n`.
fn magnitude(n: i128) -> (m: u128)
    ensures
        m == abs(n as int),
{
    if n >= 0 {
        n as u128
    } else {
        (-(n + 1)) as u128 + 1
    }
}

/// Euclid's algorithm.
fn gcd_of(a: u128, b: u128) -> (g: u128)
    ensures
        g == gcd(a as nat, b as nat),
{
    let mut x: u128 = a;
    let mut y: u128 = b;
    while y != 0
        invariant
            gcd(x as nat, y as nat) == gcd(a as nat, b as nat),
        decreases y,
    {
        let r: u128 = x % y;
        x = y;
        y = r;
    }
    x
}

} // verus!
