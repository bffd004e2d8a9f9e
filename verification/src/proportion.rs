//! Exact whole-number ratios.
//!
//! A [`Proportion`] is a pair of positive magnitudes `a : b` together with
//! its reduced (gcd-free) form.  Just-intonation tuning composes such
//! ratios repeatedly, which must stay exact: no floating-point drift is
//! acceptable, so all arithmetic here is integer arithmetic.

use vstd::prelude::*;
use vstd::arithmetic::power::pow;
use vstd::arithmetic::power::lemma_pow_increases;
use vstd::arithmetic::power::lemma_pow_positive;

verus! {

/// Greatest common divisor by Euclid's recursion.
pub open spec fn gcd(a: nat, b: nat) -> nat
    decreases b,
{
    if b == 0 {
        a
    } else {
        gcd(b, a % b)
    }
}

/// A ratio `a : b` of two positive magnitudes, kept together with its
/// reduced form.  Two proportions are equal when their reduced forms agree.
#[derive(Clone, Copy, Debug, Eq)]
pub struct Proportion {
    pub magnitude_a: u64,
    pub magnitude_b: u64,
    pub magnitude_a_norm: u64,
    pub magnitude_b_norm: u64,
}

/// The raw (unreduced) magnitudes of a proportion, as a pair.
pub open spec fn ratio(p: Proportion) -> (nat, nat) {
    (p.magnitude_a as nat, p.magnitude_b as nat)
}

/// Componentwise product of two ratio pairs.
pub open spec fn ratio_mul(x: (nat, nat), y: (nat, nat)) -> (nat, nat) {
    (x.0 * y.0, x.1 * y.1)
}

/// A ratio pair with both sides swapped.
pub open spec fn ratio_swap(x: (nat, nat)) -> (nat, nat) {
    (x.1, x.0)
}

impl Proportion {
    /// Well-formedness: both magnitudes are positive and the stored
    /// normalized fields are the magnitudes divided by their gcd.
    pub open spec fn inv(&self) -> bool {
        &&& self.magnitude_a >= 1
        &&& self.magnitude_b >= 1
        &&& self.magnitude_a_norm == self.magnitude_a as nat / gcd(
            self.magnitude_a as nat,
            self.magnitude_b as nat,
        )
        &&& self.magnitude_b_norm == self.magnitude_b as nat / gcd(
            self.magnitude_a as nat,
            self.magnitude_b as nat,
        )
    }

    /// The reduced form as stated by the library's equality.
    pub open spec fn equiv(&self, other: &Proportion) -> bool {
        self.magnitude_a_norm == other.magnitude_a_norm
            && self.magnitude_b_norm == other.magnitude_b_norm
    }

    pub fn new(magnitude_a: u64, magnitude_b: u64) -> (prop: Proportion)
        requires
            magnitude_a >= 1,
            magnitude_b >= 1,
        ensures
            prop.magnitude_a == magnitude_a,
            prop.magnitude_b == magnitude_b,
            prop.inv(),
    {
        let g = gcd_exec(magnitude_a, magnitude_b);
        Proportion {
            magnitude_a,
            magnitude_b,
            magnitude_a_norm: magnitude_a / g,
            magnitude_b_norm: magnitude_b / g,
        }
    }

    /// The unit ratio `1 : 1`.
    pub fn unit() -> (prop: Proportion)
        ensures
            prop.magnitude_a == 1,
            prop.magnitude_b == 1,
            prop.magnitude_a_norm == 1,
            prop.magnitude_b_norm == 1,
            prop.inv(),
    {
        proof {
            assert(gcd(1, 1) == gcd(1, 0));
            assert(gcd(1, 0) == 1);
        }
        Proportion { magnitude_a: 1, magnitude_b: 1, magnitude_a_norm: 1, magnitude_b_norm: 1 }
    }

    /// The ratio `1 : 2`: scaling by it moves a frequency one octave up.
    pub fn octave_up() -> (prop: Proportion)
        ensures
            prop.magnitude_a == 1,
            prop.magnitude_b == 2,
            prop.inv(),
    {
        Proportion::new(1, 2)
    }

    /// The ratio `2 : 1`: scaling by it moves a frequency one octave down.
    pub fn octave_down() -> (prop: Proportion)
        ensures
            prop.magnitude_a == 2,
            prop.magnitude_b == 1,
            prop.inv(),
    {
        Proportion::new(2, 1)
    }

    /// Multiplies two proportions, magnitude by magnitude.
    pub fn fusion(&self, other: &Proportion) -> (r: Proportion)
        requires
            self.inv(),
            other.inv(),
            self.magnitude_a * other.magnitude_a <= u64::MAX,
            self.magnitude_b * other.magnitude_b <= u64::MAX,
        ensures
            ratio(r) == ratio_mul(ratio(*self), ratio(*other)),
            r.inv(),
    {
        proof {
            assert(self.magnitude_a * other.magnitude_a >= 1 && self.magnitude_b
                * other.magnitude_b >= 1) by (nonlinear_arith)
                requires
                    self.magnitude_a >= 1 && other.magnitude_a >= 1 && self.magnitude_b >= 1
                        && other.magnitude_b >= 1,
            ;
        }
        Proportion::new(
            self.magnitude_a * other.magnitude_a,
            self.magnitude_b * other.magnitude_b,
        )
    }

    /// Swaps the two sides of the ratio.
    pub fn invert(&self) -> (r: Proportion)
        requires
            self.inv(),
        ensures
            ratio(r) == ratio_swap(ratio(*self)),
            r.inv(),
    {
        Proportion::new(self.magnitude_b, self.magnitude_a)
    }

    /// Raises the ratio to an integer power; a negative power inverts the
    /// ratio and raises it to the power's magnitude, and power zero gives
    /// the unit ratio.
    pub fn pow(&self, power: i32) -> (r: Proportion)
        requires
            self.inv(),
            power > i32::MIN,
            pow(self.magnitude_a as int, abs_nat(power as int)) <= u64::MAX,
            pow(self.magnitude_b as int, abs_nat(power as int)) <= u64::MAX,
        ensures
            power == 0 ==> r == (Proportion {
                magnitude_a: 1,
                magnitude_b: 1,
                magnitude_a_norm: 1,
                magnitude_b_norm: 1,
            }),
            power > 0 ==> ratio(r) == ((pow(self.magnitude_a as int, power as nat) as nat, pow(
                self.magnitude_b as int,
                power as nat,
            ) as nat)),
            power < 0 ==> ratio(r) == ((pow(self.magnitude_b as int, abs_nat(power as int)) as nat,
            pow(self.magnitude_a as int, abs_nat(power as int)) as nat)),
            r.inv(),
    {
        if power == 0 {
            Proportion::unit()
        } else if power < 0 {
            let exponent: u32 = (-power) as u32;
            Proportion::new(
                pow_u64(self.magnitude_b, exponent),
                pow_u64(self.magnitude_a, exponent),
            )
        } else {
            let exponent: u32 = power as u32;
            Proportion::new(
                pow_u64(self.magnitude_a, exponent),
                pow_u64(self.magnitude_b, exponent),
            )
        }
    }
}

impl Proportion {
    /// The textual form `a:b` of the raw magnitudes.
    pub fn as_string(&self) -> (r: String)
        ensures
            r@ == crate::text::dec_digits(self.magnitude_a as nat) + ":"@ + crate::text::dec_digits(
                self.magnitude_b as nat,
            ),
    {
        let mut r = String::new();
        crate::text::push_decimal(&mut r, self.magnitude_a);
        crate::text::push_char(&mut r, ':');
        crate::text::push_decimal(&mut r, self.magnitude_b);
        proof {
            reveal_strlit(":");
            assert(r@ =~= crate::text::dec_digits(self.magnitude_a as nat) + ":"@
                + crate::text::dec_digits(self.magnitude_b as nat));
        }
        r
    }
}

/// The absolute value of an integer, as a natural number.
pub open spec fn abs_nat(x: int) -> nat {
    if x >= 0 {
        x as nat
    } else {
        (-x) as nat
    }
}

/// Euclid's algorithm on machine integers.
fn gcd_exec(a: u64, b: u64) -> (g: u64)
    requires
        a >= 1,
        b >= 1,
    ensures
        g as nat == gcd(a as nat, b as nat),
        g >= 1,
{
    let mut x = a;
    let mut y = b;
    while x % y > 0
        invariant
            x >= 1,
            y >= 1,
            gcd(x as nat, y as nat) == gcd(a as nat, b as nat),
        decreases y,
    {
        let r = x % y;
        proof {
            assert(gcd(x as nat, y as nat) == gcd(y as nat, (x % y) as nat));
        }
        x = y;
        y = r;
    }
    proof {
        assert(gcd(x as nat, y as nat) == gcd(y as nat, 0));
        assert(gcd(y as nat, 0) == y as nat);
    }
    y
}

/// Repeated multiplication: `base` to the power `exp`.
fn pow_u64(base: u64, exp: u32) -> (r: u64)
    requires
        base >= 1,
        pow(base as int, exp as nat) <= u64::MAX,
    ensures
        r as int == pow(base as int, exp as nat),
        r >= 1,
{
    let mut result: u64 = 1;
    let mut i: u32 = 0;
    proof {
        vstd::arithmetic::power::lemma_pow0(base as int);
    }
    while i < exp
        invariant
            i <= exp,
            result as int == pow(base as int, i as nat),
            result >= 1,
            base >= 1,
            pow(base as int, exp as nat) <= u64::MAX,
        decreases exp - i,
    {
        proof {
            vstd::arithmetic::power::lemma_pow1(base as int);
            vstd::arithmetic::power::lemma_pow_adds(base as int, i as nat, 1);
            lemma_pow_positive(base as int, (i + 1) as nat);
            lemma_pow_increases(base as nat, (i + 1) as nat, exp as nat);
            assert(pow(base as int, (i + 1) as nat) == pow(base as int, i as nat) * base);
        }
        result = result * base;
        i = i + 1;
    }
    result
}

impl PartialEq for Proportion {
    /// Equality is by the reduced form.
    fn eq(&self, rhs: &Proportion) -> (r: bool) {
        self.magnitude_a_norm == rhs.magnitude_a_norm
            && self.magnitude_b_norm == rhs.magnitude_b_norm
    }
}

impl vstd::std_specs::cmp::PartialEqSpecImpl for Proportion {
    open spec fn obeys_eq_spec() -> bool {
        true
    }

    open spec fn eq_spec(&self, rhs: &Proportion) -> bool {
        self.equiv(rhs)
    }
}

/// Law: inverting a proportion twice gives back the very proportion,
/// normalized fields included.  The hypotheses are exactly what two calls
/// of `invert` ensure.
pub proof fn lemma_invert_involutive(p: Proportion, q: Proportion, r: Proportion)
    requires
        p.inv(),
        q.inv(),
        r.inv(),
        ratio(q) == ratio_swap(ratio(p)),
        ratio(r) == ratio_swap(ratio(q)),
    ensures
        r == p,
{
}

/// Law: fusing proportions is commutative; the two results agree in raw
/// magnitudes and therefore also in reduced form.
pub proof fn lemma_fusion_commutative(x: (nat, nat), y: (nat, nat))
    ensures
        ratio_mul(x, y) == ratio_mul(y, x),
{
}

/// Law: fusing proportions is associative; the two results agree in raw
/// magnitudes and therefore also in reduced form.
pub proof fn lemma_fusion_associative(x: (nat, nat), y: (nat, nat), z: (nat, nat))
    ensures
        ratio_mul(ratio_mul(x, y), z) == ratio_mul(x, ratio_mul(y, z)),
{
    assert(x.0 * y.0 * z.0 == x.0 * (y.0 * z.0)) by (nonlinear_arith);
    assert(x.1 * y.1 * z.1 == x.1 * (y.1 * z.1)) by (nonlinear_arith);
}

/// Law: proportions with equal raw magnitudes have equal reduced forms;
/// reduction is a function of the raw magnitudes alone.
pub proof fn lemma_equal_ratio_equal_norm(p: Proportion, q: Proportion)
    requires
        p.inv(),
        q.inv(),
        ratio(p) == ratio(q),
    ensures
        p.equiv(&q),
{
}

/// Law: fusing two proportions in either order gives the very same
/// proportion, reduced form included.  The hypotheses are exactly what
/// the two calls of `fusion` ensure.
pub proof fn lemma_fusion_commutative_reduced(
    p: Proportion,
    q: Proportion,
    pq: Proportion,
    qp: Proportion,
)
    requires
        pq.inv(),
        qp.inv(),
        ratio(pq) == ratio_mul(ratio(p), ratio(q)),
        ratio(qp) == ratio_mul(ratio(q), ratio(p)),
    ensures
        pq == qp,
{
    lemma_fusion_commutative(ratio(p), ratio(q));
}

/// Law: fusing three proportions associates: grouping them either way
/// gives the very same proportion, reduced form included.  The
/// hypotheses are exactly what the four calls of `fusion` ensure.
pub proof fn lemma_fusion_associative_reduced(
    p: Proportion,
    q: Proportion,
    r: Proportion,
    pq: Proportion,
    qr: Proportion,
    pq_r: Proportion,
    p_qr: Proportion,
)
    requires
        pq_r.inv(),
        p_qr.inv(),
        ratio(pq) == ratio_mul(ratio(p), ratio(q)),
        ratio(qr) == ratio_mul(ratio(q), ratio(r)),
        ratio(pq_r) == ratio_mul(ratio(pq), ratio(r)),
        ratio(p_qr) == ratio_mul(ratio(p), ratio(qr)),
    ensures
        pq_r == p_qr,
{
    lemma_fusion_associative(ratio(p), ratio(q), ratio(r));
}

} // verus!
