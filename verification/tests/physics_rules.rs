use orbit_annealer::{clamp, get_gravity, is_safe, GravityField, Point, SafetyBoundary};

fn field_on() -> GravityField {
    GravityField { enabled: true }
}

fn field_off() -> GravityField {
    GravityField { enabled: false }
}

#[test]
fn gravity_without_field_is_zero() {
    assert_eq!(get_gravity(&field_off(), &Point::new(5, 3)), Point::new(0, 0));
    assert_eq!(get_gravity(&field_off(), &Point::new(-7, 0)), Point::new(0, 0));
}

#[test]
fn gravity_pulls_on_dominant_axis() {
    assert_eq!(get_gravity(&field_on(), &Point::new(5, 3)), Point::new(-1, 0));
    assert_eq!(get_gravity(&field_on(), &Point::new(-5, 3)), Point::new(1, 0));
    assert_eq!(get_gravity(&field_on(), &Point::new(0, 7)), Point::new(0, -1));
    assert_eq!(get_gravity(&field_on(), &Point::new(2, -9)), Point::new(0, 1));
}

#[test]
fn gravity_pulls_on_both_axes_on_tie() {
    assert_eq!(get_gravity(&field_on(), &Point::new(3, 3)), Point::new(-1, -1));
    assert_eq!(get_gravity(&field_on(), &Point::new(-4, 4)), Point::new(1, -1));
    assert_eq!(get_gravity(&field_on(), &Point::new(0, 0)), Point::new(0, 0));
}

#[test]
fn inner_square_is_unsafe() {
    let b = Some(SafetyBoundary { inner_radius: 2, outer_radius: 100 });
    assert!(!is_safe(&b, &Point::new(2, 2)));
    assert!(!is_safe(&b, &Point::new(0, 0)));
    assert!(!is_safe(&b, &Point::new(-2, 1)));
}

#[test]
fn beyond_outer_square_is_unsafe() {
    let b = Some(SafetyBoundary { inner_radius: 2, outer_radius: 100 });
    assert!(!is_safe(&b, &Point::new(101, 0)));
    assert!(!is_safe(&b, &Point::new(0, -101)));
    assert!(!is_safe(&b, &Point::new(200, 200)));
}

#[test]
fn annulus_is_safe() {
    let b = Some(SafetyBoundary { inner_radius: 2, outer_radius: 100 });
    assert!(is_safe(&b, &Point::new(3, 0)));
    assert!(is_safe(&b, &Point::new(2, 3)));
    assert!(is_safe(&b, &Point::new(100, 100)));
    assert!(is_safe(&b, &Point::new(-50, 1)));
}

#[test]
fn no_boundary_everything_is_safe() {
    let b: Option<SafetyBoundary> = None;
    assert!(is_safe(&b, &Point::new(0, 0)));
    assert!(is_safe(&b, &Point::new(1_000_000, -1_000_000)));
}

#[test]
fn clamp_restricts_to_interval() {
    assert_eq!(clamp(5, 0, 10), 5);
    assert_eq!(clamp(-5, 0, 10), 0);
    assert_eq!(clamp(15, 0, 10), 10);
    assert_eq!(clamp(-3, -10, -1), -3);
}

#[test]
fn clamp_with_crossed_bounds_prefers_lower() {
    assert_eq!(clamp(7, 8, 3), 8);
}
