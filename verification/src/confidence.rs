//! Exact confidence scores.
//!
//! A score is a rational number, kept in the form in which the scoring rules
//! produce it so that scores compare exactly, without rounding.

use vstd::prelude::*;

verus! {

/// How likely a catalog item is the one that an unresolved name means: a
/// rational number, 1 for certainty.
#[derive(Debug, Clone, Copy, PartialEq, Eq, Structural)]
pub enum Confidence {
    /// The score `tenths / 10`.
    Fixed { tenths: u8 },
    /// The score `6/10 * (1 - distance / length)`: six tenths of the share
    /// of a name of `length` bytes that `distance` edits leave untouched.
    Scaled { distance: usize, length: usize },
}

impl Confidence {
    /// A scaled score divides by its length, which is therefore positive.
    pub open spec fn wf(self) -> bool {
        match self {
            Confidence::Fixed { tenths } => true,
            Confidence::Scaled { distance, length } => length > 0,
        }
    }

    /// Numerator of the score as a fraction.
    pub open spec fn numer(self) -> int {
        match self {
            Confidence::Fixed { tenths } => tenths as int,
            Confidence::Scaled { distance, length } => 6 * (length - distance),
        }
    }

    /// Denominator of the score as a fraction; positive for a well-formed
    /// score.
    pub open spec fn denom(self) -> int {
        match self {
            Confidence::Fixed { tenths } => 10,
            Confidence::Scaled { distance, length } => 10 * length,
        }
    }

    /// `self` is a strictly smaller number than `other`.
    pub open spec fn below(self, other: Confidence) -> bool {
        self.numer() * other.denom() < other.numer() * self.denom()
    }

    /// `self` and `other` are the same number.
    pub open spec fn same_value(self, other: Confidence) -> bool {
        self.numer() * other.denom() == other.numer() * self.denom()
    }

    /// The score is strictly greater than three tenths, the least score that
    /// makes a match worth suggesting.
    pub open spec fn relevant(self) -> bool {
        10 * self.numer() > 3 * self.denom()
    }

    /// Numerator and denominator of the score.
    pub fn ratio(&self) -> (parts: (i128, i128))
        ensures
            parts.0 == self.numer(),
            parts.1 == self.denom(),
    {
        match *self {
            Confidence::Fixed { tenths } => (tenths as i128, 10),
            Confidence::Scaled { distance, length } => (
                6 * (length as i128 - distance as i128),
                10 * (length as i128),
            ),
        }
    }

    /// Tells whether the score is strictly greater than three tenths.
    pub fn is_relevant(&self) -> (yes: bool)
        ensures
            yes == self.relevant(),
    {
        let (numer, denom) = self.ratio();
        10 * numer > 3 * denom
    }

    /// Tells whether `self` is a strictly smaller number than `other`.
    pub fn is_below(&self, other: &Confidence) -> (yes: bool)
        ensures
            yes == self.below(*other),
    {
        match (*self, *other) {
            (Confidence::Fixed { tenths: a }, Confidence::Fixed { tenths: b }) => a < b,
            (Confidence::Fixed { tenths: a }, Confidence::Scaled { distance, length }) => {
                let l: i128 = length as i128;
                let d: i128 = distance as i128;
                let t: i128 = a as i128;
                assert((t * (10 * l) < 6 * (l - d) * 10) <==> (t * l < 6 * (l - d)))
                    by (nonlinear_arith);
                assert(0 <= t * l <= 255 * l) by (nonlinear_arith)
                    requires
                        0 <= t <= 255,
                        0 <= l,
                ;
                t * l < 6 * (l - d)
            },
            (Confidence::Scaled { distance, length }, Confidence::Fixed { tenths: b }) => {
                let l: i128 = length as i128;
                let d: i128 = distance as i128;
                let t: i128 = b as i128;
                assert((6 * (l - d) * 10 < t * (10 * l)) <==> (6 * (l - d) < t * l))
                    by (nonlinear_arith);
                assert(0 <= t * l <= 255 * l) by (nonlinear_arith)
                    requires
                        0 <= t <= 255,
                        0 <= l,
                ;
                6 * (l - d) < t * l
            },
            (
                Confidence::Scaled { distance: d1, length: l1 },
                Confidence::Scaled { distance: d2, length: l2 },
            ) => {
                let x: u128 = d2 as u128;
                let y: u128 = l1 as u128;
                let z: u128 = d1 as u128;
                let w: u128 = l2 as u128;
                assert((6 * (y - z) * (10 * w) < 6 * (w - x) * (10 * y)) <==> (x * y < z * w))
                    by (nonlinear_arith);
                assert(0 <= x * y <= 0xffff_ffff_ffff_ffff * 0xffff_ffff_ffff_ffff) by (nonlinear_arith)
                    requires
                        0 <= x <= 0xffff_ffff_ffff_ffff,
                        0 <= y <= 0xffff_ffff_ffff_ffff,
                ;
                assert(0 <= z * w <= 0xffff_ffff_ffff_ffff * 0xffff_ffff_ffff_ffff) by (nonlinear_arith)
                    requires
                        0 <= z <= 0xffff_ffff_ffff_ffff,
                        0 <= w <= 0xffff_ffff_ffff_ffff,
                ;
                x * y < z * w
            },
        }
    }
}

/// A score below a second one is below every score that the second does not
/// exceed.
pub proof fn lemma_below_then_not_above(a: Confidence, b: Confidence, c: Confidence)
    requires
        a.wf(),
        b.wf(),
        c.wf(),
        a.below(b),
        !c.below(b),
    ensures
        a.below(c),
{
    let (n1, d1) = (a.numer(), a.denom());
    let (n2, d2) = (b.numer(), b.denom());
    let (n3, d3) = (c.numer(), c.denom());
    assert(d1 > 0 && d2 > 0 && d3 > 0);
    assert(n1 * d3 < n3 * d1) by (nonlinear_arith)
        requires
            d1 > 0,
            d2 > 0,
            d3 > 0,
            n1 * d2 < n2 * d1,
            n2 * d3 <= n3 * d2,
    {
        assert((n1 * d2) * d3 < (n2 * d1) * d3);
        assert((n2 * d3) * d1 <= (n3 * d2) * d1);
        assert((n1 * d3) * d2 < (n3 * d1) * d2);
    }
}

} // verus!
