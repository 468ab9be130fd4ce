use vstd::prelude::*;

verus! {

/// Normalized time: the fraction `num / den` of a segment that has elapsed.
#[derive(Copy, Clone, Debug)]
pub struct Ratio {
    pub num: u64,
    pub den: u64,
}

impl Ratio {
    /// A ratio is well formed when it denotes a number from 0 to 1.
    pub open spec fn wf(self) -> bool {
        0 < self.den && self.num <= self.den
    }
}

/// The functions of normalized time `x` that weigh control points.
#[derive(Copy, Clone, Debug)]
pub enum Basis {
    /// `x` itself.
    Identity,
    /// The half-cosine easing `(1 - cos(pi * x)) / 2`.
    Cosine,
    /// The cubic Bernstein polynomial of the given index `k`, from 0 to 3:
    /// `(1 - x)^3`, `3 (1 - x)^2 x`, `3 (1 - x) x^2`, `x^3`.
    Bernstein(u8),
    /// The uniform Catmull-Rom polynomial of the given index `k`, from 0 to 3:
    /// `(-x^3 + 2 x^2 - x) / 2`, `(3 x^3 - 5 x^2 + 2) / 2`,
    /// `(-3 x^3 + 4 x^2 + x) / 2`, `(x^3 - x^2) / 2`.
    CatmullRom(u8),
}

impl Basis {
    pub open spec fn wf(self) -> bool {
        match self {
            Basis::Identity => true,
            Basis::Cosine => true,
            Basis::Bernstein(k) => k < 4,
            Basis::CatmullRom(k) => k < 4,
        }
    }
}

/// A real coefficient, described exactly: the value of `basis` at `at`.
#[derive(Copy, Clone, Debug)]
pub struct Weight {
    pub basis: Basis,
    pub at: Ratio,
}

impl Weight {
    pub open spec fn wf(self) -> bool {
        self.basis.wf() && self.at.wf()
    }

    pub fn new(basis: Basis, at: Ratio) -> (r: Self)
        ensures
            r.basis == basis,
            r.at == at,
    {
        Weight { basis, at }
    }
}

/// Implement this trait if your type is a key you want to sample with.
///
/// The engine finds the control points and the weights of a blend; the value
/// type computes the blend. A scalar or a vector blends as
/// `a * (1 - w) + b * w`, component by component; an orientation blends the
/// coordinates of its quaternion in that way and normalizes the result, which
/// is close to the rotation in between only for small angles.
///
/// Each operation is a function of its arguments alone; the `_spec`
/// function of an operation stands for the value it returns. Nothing else is
/// claimed of an implementation: what sampling guarantees of a value, it
/// states over these functions.
pub trait Lerp: Copy {
    /// The result of `lerp`.
    spec fn lerp_spec(a: Self, b: Self, w: Weight) -> Self;

    /// The result of `sum`.
    spec fn sum_spec(a: Self, b: Self) -> Self;

    /// The result of `scaled`.
    spec fn scaled_spec(a: Self, w: Weight) -> Self;

    /// Blend `a` and `b` at the ratio that `w` describes, a number from 0,
    /// for `a`, to 1, for `b`.
    fn lerp(a: Self, b: Self, w: Weight) -> (r: Self)
        requires
            w.wf(),
        ensures
            r == Self::lerp_spec(a, b, w),
    ;

    /// The sum of two values, as vectors.
    fn sum(a: Self, b: Self) -> (r: Self)
        ensures
            r == Self::sum_spec(a, b),
    ;

    /// The value, as a vector, times the scalar that `w` describes.
    fn scaled(a: Self, w: Weight) -> (r: Self)
        requires
            w.wf(),
        ensures
            r == Self::scaled_spec(a, w),
    ;
}

} // verus!
