//! Exact comparison of quantities that outgrow 128 bits.
//!
//! The glyph-similarity and threshold searches rank candidates by fractions
//! of sums over pixel data, which are compared by cross-multiplication. The
//! products outgrow 128 bits, so they are held in limbs of 128 bits each and
//! compared without rounding: two limbs for a product of two numbers, five
//! for a square times a number.
use vstd::prelude::*;

verus! {

/// Two to the power 64: the base in which a 128-bit factor is split in two.
pub const LIMB: u128 = 0x1_0000_0000_0000_0000;

/// Two to the power 128: the weight of the upper half of a [`Wide`].
pub open spec fn radix() -> int {
    0x1_0000_0000_0000_0000_0000_0000_0000_0000int
}

/// Two to the power 256.
pub open spec fn radix2() -> int {
    radix() * radix()
}

/// Two to the power 384.
pub open spec fn radix3() -> int {
    radix() * radix() * radix()
}

/// Two to the power 512.
pub open spec fn radix4() -> int {
    radix() * radix() * radix() * radix()
}

/// A natural number below two to the power 640, in five limbs of 128 bits,
/// the lowest first.
#[derive(Clone, Copy, Debug)]
pub struct Huge {
    pub limbs: [u128; 5],
}

/// A natural number below two to the power 256, as `hi * 2^128 + lo`.
#[derive(Clone, Copy, Debug)]
pub struct Wide {
    pub hi: u128,
    pub lo: u128,
}

impl Wide {
    /// The number that the two halves stand for.
    pub open spec fn value(&self) -> int {
        self.hi as int * radix() + self.lo as int
    }

    /// The number zero.
    pub fn zero() -> (r: Wide)
        ensures
            r.value() == 0,
    {
        Wide { hi: 0, lo: 0 }
    }

    /// The full product of two 128-bit numbers.
    pub fn product(a: u128, b: u128) -> (r: Wide)
        ensures
            r.value() == a as int * b as int,
    {
        let a1: u128 = a / LIMB;
        let a0: u128 = a % LIMB;
        let b1: u128 = b / LIMB;
        let b0: u128 = b % LIMB;
        proof {
            lemma_limb_product(a0, b0);
            lemma_limb_product(a0, b1);
            lemma_limb_product(a1, b0);
            lemma_limb_product(a1, b1);
        }
        let p00: u128 = a0 * b0;
        let p01: u128 = a0 * b1;
        let p10: u128 = a1 * b0;
        let p11: u128 = a1 * b1;
        let carry: u128 = p00 / LIMB + p01 % LIMB + p10 % LIMB;
        let lo: u128 = (carry % LIMB) * LIMB + p00 % LIMB;
        let hi: u128 = p11 + p01 / LIMB + p10 / LIMB + carry / LIMB;
        proof {
            let base = LIMB as int;
            assert(base * base == radix());
            assert(a as int * b as int == p11 * (base * base) + (p01 + p10) * base + p00) by {
                assert(a as int == a1 * base + a0);
                assert(b as int == b1 * base + b0);
                assert((a1 * base + a0) * (b1 * base + b0) == (a1 * b1) * (base * base) + (a0
                    * b1 + a1 * b0) * base + a0 * b0) by (nonlinear_arith);
            }
            assert(p01 as int == (p01 / LIMB) * base + p01 % LIMB);
            assert(p10 as int == (p10 / LIMB) * base + p10 % LIMB);
            assert(p00 as int == (p00 / LIMB) * base + p00 % LIMB);
            assert(carry as int == (carry / LIMB) * base + carry % LIMB);
            assert((p01 / LIMB) * base * base == (p01 / LIMB) * (base * base))
                by (nonlinear_arith);
            assert((p10 / LIMB) * base * base == (p10 / LIMB) * (base * base))
                by (nonlinear_arith);
            assert((carry / LIMB) * base * base == (carry / LIMB) * (base * base))
                by (nonlinear_arith);
            assert((p01 + p10) * base == ((p01 / LIMB) * base + p01 % LIMB) * base + ((p10
                / LIMB) * base + p10 % LIMB) * base) by (nonlinear_arith)
                requires
                    p01 as int == (p01 / LIMB) * base + p01 % LIMB,
                    p10 as int == (p10 / LIMB) * base + p10 % LIMB,
            ;
            assert(((p01 / LIMB) * base + p01 % LIMB) * base == (p01 / LIMB) * base * base + (p01
                % LIMB) * base) by (nonlinear_arith);
            assert(((p10 / LIMB) * base + p10 % LIMB) * base == (p10 / LIMB) * base * base + (p10
                % LIMB) * base) by (nonlinear_arith);
            assert(carry * base == (carry / LIMB) * base * base + (carry % LIMB) * base)
                by (nonlinear_arith)
                requires
                    carry as int == (carry / LIMB) * base + carry % LIMB,
            ;
            assert(carry * base == (p00 / LIMB) * base + (p01 % LIMB) * base + (p10 % LIMB)
                * base) by (nonlinear_arith)
                requires
                    carry as int == p00 / LIMB + p01 % LIMB + p10 % LIMB,
            ;
            assert((p11 + p01 / LIMB + p10 / LIMB + carry / LIMB) * (base * base) == p11 * (base
                * base) + (p01 / LIMB) * (base * base) + (p10 / LIMB) * (base * base) + (carry
                / LIMB) * (base * base)) by (nonlinear_arith);
        }
        Wide { hi, lo }
    }

    /// Whether this number is at most the other.
    pub fn at_most(&self, other: &Wide) -> (r: bool)
        ensures
            r == (self.value() <= other.value()),
    {
        self.hi < other.hi || (self.hi == other.hi && self.lo <= other.lo)
    }

    /// How far the two numbers lie apart.
    pub fn distance(&self, other: &Wide) -> (r: Wide)
        ensures
            r.value() == if self.value() <= other.value() {
                other.value() - self.value()
            } else {
                self.value() - other.value()
            },
    {
        if self.at_most(other) {
            Self::minus(other, self)
        } else {
            Self::minus(self, other)
        }
    }

    /// The difference of two numbers of which the first is not the smaller.
    fn minus(large: &Wide, small: &Wide) -> (r: Wide)
        requires
            small.value() <= large.value(),
        ensures
            r.value() == large.value() - small.value(),
    {
        if large.lo >= small.lo {
            Wide { hi: large.hi - small.hi, lo: large.lo - small.lo }
        } else {
            let gap: u128 = small.lo - large.lo;
            Wide { hi: large.hi - small.hi - 1, lo: u128::MAX - gap + 1 }
        }
    }
}

impl Huge {
    /// The number that the limbs stand for.
    pub open spec fn value(&self) -> int {
        self.limbs[0] + radix() * (self.limbs[1] + radix() * (self.limbs[2] + radix() * (
        self.limbs[3] + radix() * self.limbs[4])))
    }

    /// Whether this number is at most the other.
    pub fn at_most(&self, other: &Huge) -> (r: bool)
        ensures
            r == (self.value() <= other.value()),
    {
        proof {
            let r = radix();
            let a = self.limbs@;
            let b = other.limbs@;
            let a3 = a[3] + r * a[4];
            let b3 = b[3] + r * b[4];
            let a2 = a[2] + r * a3;
            let b2 = b[2] + r * b3;
            let a1 = a[1] + r * a2;
            let b1 = b[1] + r * b2;
            lemma_limb_order(a[3] as int, a[4] as int, b[3] as int, b[4] as int);
            lemma_limb_order(b[3] as int, b[4] as int, a[3] as int, a[4] as int);
            lemma_limb_order(a[2] as int, a3, b[2] as int, b3);
            lemma_limb_order(b[2] as int, b3, a[2] as int, a3);
            lemma_limb_order(a[1] as int, a2, b[1] as int, b2);
            lemma_limb_order(b[1] as int, b2, a[1] as int, a2);
            lemma_limb_order(a[0] as int, a1, b[0] as int, b1);
        }
        if self.limbs[4] != other.limbs[4] {
            self.limbs[4] < other.limbs[4]
        } else if self.limbs[3] != other.limbs[3] {
            self.limbs[3] < other.limbs[3]
        } else if self.limbs[2] != other.limbs[2] {
            self.limbs[2] < other.limbs[2]
        } else if self.limbs[1] != other.limbs[1] {
            self.limbs[1] < other.limbs[1]
        } else {
            self.limbs[0] <= other.limbs[0]
        }
    }
}

/// Numbers of a limb and an upper part are ordered by the upper part first.
proof fn lemma_limb_order(x_lo: int, x_hi: int, y_lo: int, y_hi: int)
    requires
        0 <= x_lo < radix(),
        0 <= y_lo < radix(),
    ensures
        (x_lo + radix() * x_hi <= y_lo + radix() * y_hi) <==> (x_hi < y_hi || (x_hi == y_hi && x_lo
            <= y_lo)),
{
    let r = radix();
    assert((x_lo + r * x_hi <= y_lo + r * y_hi) <==> (x_hi < y_hi || (x_hi == y_hi && x_lo
        <= y_lo))) by (nonlinear_arith)
        requires
            0 <= x_lo < r,
            0 <= y_lo < r,
    ;
}

/// The sum of three limbs, as a limb and what is carried to the next.
fn sum3(a: u128, b: u128, c: u128) -> (r: (u128, u128))
    ensures
        r.0 + r.1 * radix() == a + b + c,
        r.1 <= 2,
{
    let (first, carry1) = sum2(a, b);
    let (second, carry2) = sum2(first, c);
    (second, carry1 + carry2)
}

/// The sum of two limbs, as a limb and what is carried to the next.
fn sum2(a: u128, b: u128) -> (r: (u128, u128))
    ensures
        r.0 + r.1 * radix() == a + b,
        r.1 <= 1,
{
    let room: u128 = u128::MAX - b;
    if a <= room {
        (a + b, 0)
    } else {
        (a - room - 1, 1)
    }
}

impl Wide {
    /// The square of this number, times `m`.
    pub fn squared_times(&self, m: u128) -> (r: Huge)
        ensures
            r.value() == self.value() * self.value() * m,
    {
        let h: u128 = self.hi;
        let l: u128 = self.lo;
        let ll = Wide::product(l, l);
        let lh = Wide::product(l, h);
        let hh = Wide::product(h, h);
        let ghost d = self.value();
        proof {
            assert(d * d == (h * h) * radix2() + 2 * (l * h) * radix() + l * l)
                by (nonlinear_arith)
                requires
                    d == h * radix() + l,
                    radix2() == radix() * radix(),
            ;
            assert(0 <= d * d < radix4()) by (nonlinear_arith)
                requires
                    0 <= d < radix2(),
                    radix4() == radix2() * radix2(),
            ;
        }
        let q0: u128 = ll.lo;
        let (q1, c1) = sum3(ll.hi, lh.lo, lh.lo);
        let (upper, c2) = sum3(hh.lo, lh.hi, lh.hi);
        let (q2, c3) = sum2(upper, c1);
        proof {
            let r1 = radix();
            let r2 = radix2();
            let r3 = radix3();
            assert((h * h) * r2 == hh.hi * r3 + hh.lo * r2) by (nonlinear_arith)
                requires
                    h * h == hh.hi * r1 + hh.lo,
                    r1 * r2 == r3,
            ;
            assert(2 * (l * h) * r1 == 2 * lh.hi * r2 + 2 * lh.lo * r1) by (nonlinear_arith)
                requires
                    l * h == lh.hi * r1 + lh.lo,
                    r1 * r1 == r2,
            ;
            assert(c1 * r1 * r1 == c1 * r2 && c2 * r1 * r2 == c2 * r3 && c3 * r1 * r2 == c3 * r3)
                by (nonlinear_arith)
                requires
                    r1 * r1 == r2,
                    r1 * r2 == r3,
            ;
            assert(q1 * r1 + c1 * r1 * r1 == (ll.hi + lh.lo + lh.lo) * r1) by (nonlinear_arith)
                requires
                    q1 + c1 * r1 == ll.hi + lh.lo + lh.lo,
            ;
            assert(upper * r2 + c2 * r1 * r2 == (hh.lo + lh.hi + lh.hi) * r2)
                by (nonlinear_arith)
                requires
                    upper + c2 * r1 == hh.lo + lh.hi + lh.hi,
            ;
            assert(q2 * r2 + c3 * r1 * r2 == (upper + c1) * r2) by (nonlinear_arith)
                requires
                    q2 + c3 * r1 == upper + c1,
            ;
            assert(d * d == q0 + q1 * r1 + q2 * r2 + (hh.hi + c2 + c3) * r3);
        }
        let q3: u128 = hh.hi + c2 + c3;
        let p0 = Wide::product(q0, m);
        let p1 = Wide::product(q1, m);
        let p2 = Wide::product(q2, m);
        let p3 = Wide::product(q3, m);
        proof {
            assert((q0 + q1 * radix() + q2 * radix2() + q3 * radix3()) * m == q0 * m + (q1 * m)
                * radix() + (q2 * m) * radix2() + (q3 * m) * radix3()) by (nonlinear_arith);
            assert(0 <= (d * d) * m < radix4() * radix()) by (nonlinear_arith)
                requires
                    0 <= d * d < radix4(),
                    0 <= m < radix(),
            ;
        }
        let x0: u128 = p0.lo;
        let (x1, e1) = sum2(p0.hi, p1.lo);
        let (x2, e2) = sum3(p1.hi, p2.lo, e1);
        let (x3, e3) = sum3(p2.hi, p3.lo, e2);
        proof {
            let r1 = radix();
            let r2 = radix2();
            let r3 = radix3();
            let r4 = radix4();
            assert((q1 * m) * r1 == p1.hi * r2 + p1.lo * r1) by (nonlinear_arith)
                requires
                    q1 * m == p1.hi * r1 + p1.lo,
                    r1 * r1 == r2,
            ;
            assert((q2 * m) * r2 == p2.hi * r3 + p2.lo * r2) by (nonlinear_arith)
                requires
                    q2 * m == p2.hi * r1 + p2.lo,
                    r1 * r2 == r3,
            ;
            assert((q3 * m) * r3 == p3.hi * r4 + p3.lo * r3) by (nonlinear_arith)
                requires
                    q3 * m == p3.hi * r1 + p3.lo,
                    r1 * r3 == r4,
            ;
            assert(e1 * r1 * r1 == e1 * r2 && e2 * r1 * r2 == e2 * r3 && e3 * r1 * r3 == e3 * r4)
                by (nonlinear_arith)
                requires
                    r1 * r1 == r2,
                    r1 * r2 == r3,
                    r1 * r3 == r4,
            ;
            assert(x1 * r1 + e1 * r1 * r1 == (p0.hi + p1.lo) * r1) by (nonlinear_arith)
                requires
                    x1 + e1 * r1 == p0.hi + p1.lo,
            ;
            assert(x2 * r2 + e2 * r1 * r2 == (p1.hi + p2.lo + e1) * r2) by (nonlinear_arith)
                requires
                    x2 + e2 * r1 == p1.hi + p2.lo + e1,
            ;
            assert(x3 * r3 + e3 * r1 * r3 == (p2.hi + p3.lo + e2) * r3) by (nonlinear_arith)
                requires
                    x3 + e3 * r1 == p2.hi + p3.lo + e2,
            ;
            assert((d * d) * m == x0 + x1 * r1 + x2 * r2 + x3 * r3 + (p3.hi + e3) * r4);
            assert(r4 * r1 == r1 * r4);
        }
        let x4: u128 = p3.hi + e3;
        proof {
            let r1 = radix();
            let r2 = radix2();
            let r3 = radix3();
            let r4 = radix4();
            let t3 = x3 + r1 * x4;
            let t2 = x2 + r1 * t3;
            let t1 = x1 + r1 * t2;
            assert(r3 * t3 == x3 * r3 + x4 * r4) by (nonlinear_arith)
                requires
                    t3 == x3 + r1 * x4,
                    r4 == r3 * r1,
            ;
            assert(r2 * t2 == x2 * r2 + r3 * t3) by (nonlinear_arith)
                requires
                    t2 == x2 + r1 * t3,
                    r3 == r2 * r1,
            ;
            assert(r1 * t1 == x1 * r1 + r2 * t2) by (nonlinear_arith)
                requires
                    t1 == x1 + r1 * t2,
                    r2 == r1 * r1,
            ;
        }
        Huge { limbs: [x0, x1, x2, x3, x4] }
    }
}

/// The product of two numbers below two to the power 64 is below two to the
/// power 128, with room to add three more such numbers.
pub proof fn lemma_limb_product(x: u128, y: u128)
    requires
        x < LIMB,
        y < LIMB,
    ensures
        x as int * y as int <= (LIMB - 1) * (LIMB - 1),
        0 <= x as int * y as int,
{
    assert(x as int * y as int <= (LIMB - 1) * (LIMB - 1)) by (nonlinear_arith)
        requires
            0 <= x <= LIMB - 1,
            0 <= y <= LIMB - 1,
    ;
    assert(0 <= x as int * y as int) by (nonlinear_arith)
        requires
            0 <= x,
            0 <= y,
    ;
}

} // verus!
