//! Shared measures of the detection logic.
//!
//! The great-circle distance between two fixes is floating-point work and is
//! computed outside the crate; the rules below take distances and accuracies
//! as plain fixed-point values (1e-6 meters) and are verified for all of
//! them.

use vstd::prelude::*;

verus! {

/// The circular-error estimate the GNSS path stores for a fix:
/// 2.5 meters per unit of PDOP.  Both sides are in 1e-6 units, so the
/// result is `5 * pdop / 2`, exact whenever `pdop` is even (see
/// `lemma_gps_accuracy_scale`).
pub fn estimate_gps_accuracy(pdop: i64) -> (r: i64)
    requires
        0 <= pdop,
        5 * pdop <= i64::MAX,
    ensures
        r as int == 5 * (pdop as int) / 2,
{
    5 * pdop / 2
}

/// The accuracy estimate is exactly 2.5 times the PDOP value: for every
/// even fixed-point `pdop`, twice the estimate is five times the input.
pub proof fn lemma_gps_accuracy_scale(pdop: int, r: int)
    requires
        0 <= pdop,
        pdop % 2 == 0,
        r == 5 * pdop / 2,
    ensures
        2 * r == 5 * pdop,
{
    assert(2 * (5 * pdop / 2) == 5 * pdop) by (nonlinear_arith)
        requires
            pdop >= 0,
            pdop % 2 == 0,
    ;
}

/// Whether a movement is judged significant: the distance between the two
/// fixes exceeds the sum of their accuracy radii, so the two confidence
/// circles cannot overlap.  All three values are in 1e-6 meters.
pub fn is_distance_big_enough(distance: i64, accuracy_a: i64, accuracy_b: i64) -> (r: bool)
    ensures
        r == (distance as int > accuracy_a as int + accuracy_b as int),
{
    (distance as i128) > (accuracy_a as i128) + (accuracy_b as i128)
}

} // verus!
