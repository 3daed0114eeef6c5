//! Which closed form an element's transport matrix takes.
//!
//! The choice depends only on how the element's length, bend angle, gradient
//! and effective focusing compare with zero; each comparison is exact, and a
//! value that compares neither equal, greater nor less (not a number) takes
//! the last branch of each choice.

use vstd::prelude::*;

verus! {

/// How a value compares with zero.
#[derive(Debug, Clone, Copy, PartialEq, Eq, Structural)]
pub struct Signs {
    pub zero: bool,
    pub positive: bool,
    pub negative: bool,
}

/// The solution in one transverse plane.
#[derive(Debug, Clone, Copy, PartialEq, Eq, Structural)]
pub enum PlaneForm {
    /// No focusing: straight-line transport.
    Drift,
    /// Focusing: cosine and sine of the phase advance.
    Trigonometric,
    /// Defocusing: hyperbolic cosine and sine.
    Hyperbolic,
}

/// The closed form of an element's transport matrix.
#[derive(Debug, Clone, Copy, PartialEq, Eq, Structural)]
pub enum MatrixForm {
    /// The identity.
    Marker,
    /// Straight-line transport in both planes.
    Drift,
    /// A quadrupole: one plane focusing, the other defocusing, no dispersion.
    Quadrupole { horizontal: PlaneForm, vertical: PlaneForm },
    /// A sector bend: the horizontal plane carries dispersion and path-length
    /// terms, the vertical plane none.
    Bend { horizontal: PlaneForm, vertical: PlaneForm },
}

pub open spec fn plane_form(zero: bool, focusing: bool) -> PlaneForm {
    if zero {
        PlaneForm::Drift
    } else if focusing {
        PlaneForm::Trigonometric
    } else {
        PlaneForm::Hyperbolic
    }
}

/// A quadrupole of gradient `k1`: a marker when its length is zero, a drift
/// when `k1` is zero, else focusing horizontally when `k1` is positive and
/// vertically otherwise.
pub open spec fn quadrupole_form_of(length: Signs, k1: Signs) -> MatrixForm {
    if length.zero {
        MatrixForm::Marker
    } else if k1.zero {
        MatrixForm::Drift
    } else if k1.positive {
        MatrixForm::Quadrupole {
            horizontal: PlaneForm::Trigonometric,
            vertical: PlaneForm::Hyperbolic,
        }
    } else {
        MatrixForm::Quadrupole {
            horizontal: PlaneForm::Hyperbolic,
            vertical: PlaneForm::Trigonometric,
        }
    }
}

/// A sector bend of angle `angle` and gradient `k1`, whose horizontal
/// effective focusing `h² + k1` compares with zero as `kx2`: a marker when
/// its length is zero, a quadrupole when the angle is zero, else a bend whose
/// horizontal plane follows `kx2` (focusing when positive) and whose vertical
/// plane follows `k1` (focusing when negative).
pub open spec fn sector_bend_form_of(length: Signs, angle: Signs, k1: Signs, kx2: Signs) -> MatrixForm {
    if length.zero {
        MatrixForm::Marker
    } else if angle.zero {
        quadrupole_form_of(length, k1)
    } else {
        MatrixForm::Bend {
            horizontal: plane_form(kx2.zero, kx2.positive),
            vertical: plane_form(k1.zero, k1.negative),
        }
    }
}

fn plane(zero: bool, focusing: bool) -> (r: PlaneForm)
    ensures
        r == plane_form(zero, focusing),
{
    if zero {
        PlaneForm::Drift
    } else if focusing {
        PlaneForm::Trigonometric
    } else {
        PlaneForm::Hyperbolic
    }
}

/// The closed form of a quadrupole's transport matrix.
pub fn quadrupole_form(length: Signs, k1: Signs) -> (r: MatrixForm)
    ensures
        r == quadrupole_form_of(length, k1),
{
    if length.zero {
        MatrixForm::Marker
    } else if k1.zero {
        MatrixForm::Drift
    } else if k1.positive {
        MatrixForm::Quadrupole {
            horizontal: PlaneForm::Trigonometric,
            vertical: PlaneForm::Hyperbolic,
        }
    } else {
        MatrixForm::Quadrupole {
            horizontal: PlaneForm::Hyperbolic,
            vertical: PlaneForm::Trigonometric,
        }
    }
}

/// The closed form of a sector bend's transport matrix.
pub fn sector_bend_form(length: Signs, angle: Signs, k1: Signs, kx2: Signs) -> (r: MatrixForm)
    ensures
        r == sector_bend_form_of(length, angle, k1, kx2),
{
    if length.zero {
        MatrixForm::Marker
    } else if angle.zero {
        quadrupole_form(length, k1)
    } else {
        MatrixForm::Bend {
            horizontal: plane(kx2.zero, kx2.positive),
            vertical: plane(k1.zero, k1.negative),
        }
    }
}

/// A quadrupole of zero length is a marker, whatever its gradient; one of
/// zero gradient is a drift, whatever its nonzero length.
pub proof fn lemma_degenerate_quadrupoles(length: Signs, k1: Signs)
    ensures
        length.zero ==> quadrupole_form_of(length, k1) == MatrixForm::Marker,
        !length.zero && k1.zero ==> quadrupole_form_of(length, k1) == MatrixForm::Drift,
{
}

/// A sector bend of zero angle takes the form of the quadrupole of the same
/// length and gradient.
pub proof fn lemma_straight_bend_is_quadrupole(length: Signs, angle: Signs, k1: Signs, kx2: Signs)
    requires
        angle.zero,
    ensures
        sector_bend_form_of(length, angle, k1, kx2) == quadrupole_form_of(length, k1),
{
}

} // verus!
