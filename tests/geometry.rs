use nucleus::{Collider, Vector2, clamp, clamp_vec2_by_length, is_colliding, is_cords_in_collider};

#[test]
fn overlap_is_symmetric_on_examples() {
    let cases = [
        (Vector2::new(0, 0), 22_500, Vector2::new(29_999, 0), 7_500),
        (Vector2::new(0, 0), 22_500, Vector2::new(30_000, 0), 7_500),
        (Vector2::new(-5_000, 7_000), 1, Vector2::new(40_000, -3_000), 90_000),
        (Vector2::new(3, 4), 0, Vector2::new(3, 4), 0),
    ];
    for (pa, ra, pb, rb) in cases {
        let ca = Collider::new(ra);
        let cb = Collider::new(rb);
        assert_eq!(is_colliding((&pa, &ca), (&pb, &cb)), is_colliding((&pb, &cb), (&pa, &ca)));
    }
}

#[test]
fn overlap_needs_strictly_less_than_radius_sum() {
    let a = Vector2::new(0, 0);
    let ca = Collider::new(22_500);
    let cn = Collider::new(7_500);
    assert!(is_colliding((&a, &ca), (&Vector2::new(29_999, 0), &cn)));
    assert!(!is_colliding((&a, &ca), (&Vector2::new(30_000, 0), &cn)));
    assert!(is_colliding((&a, &ca), (&Vector2::new(18_000, 23_999), &cn)));
    assert!(!is_colliding((&a, &ca), (&Vector2::new(18_000, 24_000), &cn)));
}

#[test]
fn zero_radii_never_overlap() {
    let p = Vector2::new(5, 5);
    let c = Collider::new(0);
    assert!(!is_colliding((&p, &c), (&p, &c)));
}

#[test]
fn point_in_collider() {
    let center = Vector2::new(10_000, 10_000);
    let c = Collider::new(7_500);
    assert!(is_cords_in_collider(Vector2::new(10_000, 10_000), center, &c));
    assert!(is_cords_in_collider(Vector2::new(17_499, 10_000), center, &c));
    assert!(!is_cords_in_collider(Vector2::new(17_500, 10_000), center, &c));
    assert!(!is_cords_in_collider(center, center, &Collider::new(0)));
}

#[test]
fn clamp_limits_to_range() {
    assert_eq!(clamp(5, 0, 10), 5);
    assert_eq!(clamp(-3, 0, 10), 0);
    assert_eq!(clamp(12, 0, 10), 10);
    assert_eq!(clamp(0, 0, 10), 0);
    assert_eq!(clamp(10, 0, 10), 10);
}

#[test]
fn clamp_by_length_keeps_vectors_in_range() {
    let v = Vector2::new(3_000, 4_000);
    assert_eq!(clamp_vec2_by_length(v, 100, 1_500_000), v);
}

#[test]
fn clamp_by_length_shortens_long_vectors() {
    let v = Vector2::new(3_000_000, 4_000_000);
    assert_eq!(clamp_vec2_by_length(v, 100, 1_500_000), Vector2::new(900_000, 1_200_000));
}

#[test]
fn clamp_by_length_lengthens_short_vectors() {
    let v = Vector2::new(3, 4);
    assert_eq!(clamp_vec2_by_length(v, 100, 1_500_000), Vector2::new(60, 80));
    let w = Vector2::new(0, -7);
    assert_eq!(clamp_vec2_by_length(w, 100, 1_500_000), Vector2::new(0, -100));
}

#[test]
fn clamp_by_length_leaves_zero_vector() {
    let z = Vector2::new(0, 0);
    assert_eq!(clamp_vec2_by_length(z, 100, 1_500_000), z);
}
