use rustracer::sphere::sphere_hit;
use rustracer::sphere::SphereHit;

#[test]
fn beyond_the_radius_is_a_miss() {
    assert_eq!(sphere_hit(true, false), SphereHit::Miss);
    assert_eq!(sphere_hit(true, true), SphereHit::Miss);
}

#[test]
fn within_the_radius_is_never_a_miss() {
    assert_ne!(sphere_hit(false, false), SphereHit::Miss);
    assert_ne!(sphere_hit(false, true), SphereHit::Miss);
}

#[test]
fn short_half_chord_gives_the_near_end() {
    assert_eq!(sphere_hit(false, true), SphereHit::Near);
}

#[test]
fn long_half_chord_gives_the_far_end() {
    assert_eq!(sphere_hit(false, false), SphereHit::Far);
}

// A sphere of radius 1 around (0, 0, -3) and a ray from the origin along
// (0, 0, -1): the centre lies on the ray, 3 ahead, and half the chord is 1.
#[test]
fn sphere_straight_ahead_is_hit_on_its_near_side() {
    let squared_offset: f32 = 0.0;
    let squared_radius: f32 = 1.0;
    let projected_distance: f32 = 3.0;
    let half_chord = (squared_radius - squared_offset).sqrt();
    let hit = sphere_hit(squared_offset > squared_radius, half_chord < projected_distance);
    assert_eq!(hit, SphereHit::Near);
    assert_eq!(-(projected_distance - half_chord), -2.0);
}

// The same sphere and a ray from the origin along (1, 0, 0): the point of
// the ray closest to the centre is the origin, 3 away from the centre.
#[test]
fn sphere_beside_a_perpendicular_ray_is_missed() {
    let squared_offset: f32 = 9.0;
    let squared_radius: f32 = 1.0;
    let projected_distance: f32 = 0.0;
    let half_chord = (squared_radius - squared_offset).sqrt();
    assert!(half_chord.is_nan());
    let hit = sphere_hit(squared_offset > squared_radius, half_chord < projected_distance);
    assert_eq!(hit, SphereHit::Miss);
}

// A sphere of radius 1 around (1, 0, -3) and a ray from the origin along
// (0, 0, -1): the ray touches the sphere, and the chord has no length.
#[test]
fn tangent_ray_gives_one_hit() {
    let squared_offset: f32 = 1.0;
    let squared_radius: f32 = 1.0;
    let projected_distance: f32 = 3.0;
    let half_chord = (squared_radius - squared_offset).sqrt();
    assert_eq!(half_chord, 0.0);
    let hit = sphere_hit(squared_offset > squared_radius, half_chord < projected_distance);
    assert_eq!(hit, SphereHit::Near);
    assert_eq!(projected_distance - half_chord, projected_distance + half_chord);
}

// A ray that starts at the centre of a sphere of radius 2: half the chord
// is not below the distance of zero, so the far end is reported.
#[test]
fn ray_from_the_centre_leaves_through_the_far_end() {
    let half_chord: f32 = 2.0;
    let projected_distance: f32 = 0.0;
    assert_eq!(sphere_hit(false, half_chord < projected_distance), SphereHit::Far);
}

// A sphere of radius 1 that lies 3 behind the origin of the ray: the
// distance is negative, and a hit is reported all the same.
#[test]
fn sphere_behind_the_ray_is_not_rejected() {
    let squared_offset: f32 = 0.0;
    let squared_radius: f32 = 1.0;
    let projected_distance: f32 = -3.0;
    let half_chord = (squared_radius - squared_offset).sqrt();
    let hit = sphere_hit(squared_offset > squared_radius, half_chord < projected_distance);
    assert_eq!(hit, SphereHit::Far);
    assert_eq!(projected_distance + half_chord, -2.0);
}
