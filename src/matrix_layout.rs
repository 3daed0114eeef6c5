//! The layouts of transport matrices that do not depend on arithmetic: which
//! entry holds which value. The scalar type is left open, with its zero and
//! one passed in.

use vstd::prelude::*;

verus! {

/// Entry `(i, j)` of a 6×6 matrix.
pub open spec fn entry6<T>(m: [[T; 6]; 6], i: int, j: int) -> T {
    m@[i]@[j]
}

/// Entry `(i, j)` of a 3×3 matrix.
pub open spec fn entry3<T>(m: [[T; 3]; 3], i: int, j: int) -> T {
    m@[i]@[j]
}

/// The 6×6 identity.
pub fn identity6<T: Copy>(zero: T, one: T) -> (m: [[T; 6]; 6])
    ensures
        forall|i: int, j: int|
            0 <= i < 6 && 0 <= j < 6 ==> entry6(m, i, j) == if i == j {
                one
            } else {
                zero
            },
{
    [
        [one, zero, zero, zero, zero, zero],
        [zero, one, zero, zero, zero, zero],
        [zero, zero, one, zero, zero, zero],
        [zero, zero, zero, one, zero, zero],
        [zero, zero, zero, zero, one, zero],
        [zero, zero, zero, zero, zero, one],
    ]
}

/// The transport matrix of a straight field-free section of length `length`:
/// the identity with `length` at `(0, 1)` and `(2, 3)`.
pub fn drift_matrix<T: Copy>(length: T, zero: T, one: T) -> (m: [[T; 6]; 6])
    ensures
        forall|i: int, j: int|
            0 <= i < 6 && 0 <= j < 6 ==> entry6(m, i, j) == if (i == 0 && j == 1) || (i == 2
                && j == 3) {
                length
            } else if i == j {
                one
            } else {
                zero
            },
{
    [
        [one, length, zero, zero, zero, zero],
        [zero, one, zero, zero, zero, zero],
        [zero, zero, one, length, zero, zero],
        [zero, zero, zero, one, zero, zero],
        [zero, zero, zero, zero, one, zero],
        [zero, zero, zero, zero, zero, one],
    ]
}

/// The map of a transport matrix on `(η, η′, 1)`: rows and columns 0, 1 and
/// 5 of `r`, with `(0, 0, 1)` as its last row.
pub fn dispersion_block<T: Copy>(r: &[[T; 6]; 6], zero: T, one: T) -> (d: [[T; 3]; 3])
    ensures
        forall|i: int, j: int|
            0 <= i < 2 && 0 <= j < 3 ==> entry3(d, i, j) == entry6(
                *r,
                i,
                if j == 2 {
                    5
                } else {
                    j
                },
            ),
        entry3(d, 2, 0) == zero,
        entry3(d, 2, 1) == zero,
        entry3(d, 2, 2) == one,
{
    [[r[0][0], r[0][1], r[0][5]], [r[1][0], r[1][1], r[1][5]], [zero, zero, one]]
}

} // verus!
