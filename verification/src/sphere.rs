//! Which end of the chord a ray reports when it is tested against a sphere.

use vstd::prelude::*;

verus! {

/// The outcome of testing a ray against a sphere.
#[derive(Clone, Copy, Debug, PartialEq, Eq, Structural)]
pub enum SphereHit {
    /// The ray passes outside the sphere.
    Miss,
    /// The hit is the end of the chord that lies nearer along the ray:
    /// the projected distance less half the chord.
    Near,
    /// The hit is the end of the chord that lies farther along the ray:
    /// the projected distance plus half the chord.
    Far,
}

/// Decides the outcome from the two comparisons that the test of a ray
/// against a sphere makes.
///
/// `beyond_radius` says that the squared distance between the centre and
/// the ray is above the squared radius: that alone makes a miss.
/// `offset_below_distance` says that half the chord is shorter than the
/// distance along the ray to the point closest to the centre: then the near
/// end of the chord is reported, otherwise the far end. The sign of the
/// distance plays no part, so a hit behind the origin of the ray is
/// reported like any other.
pub fn sphere_hit(beyond_radius: bool, offset_below_distance: bool) -> (hit: SphereHit)
    ensures
        hit == if beyond_radius {
            SphereHit::Miss
        } else if offset_below_distance {
            SphereHit::Near
        } else {
            SphereHit::Far
        },
{
    if beyond_radius {
        SphereHit::Miss
    } else if offset_below_distance {
        SphereHit::Near
    } else {
        SphereHit::Far
    }
}

} // verus!
