use raytracer::clamp::clamped;

#[test]
fn clamped_leaves_a_value_inside_the_range() {
    assert_eq!(clamped(5, 0, 10), 5);
    assert_eq!(clamped(-3i64, -10, 10), -3);
}

#[test]
fn clamped_raises_to_the_lower_bound() {
    assert_eq!(clamped(-1, 0, 10), 0);
    assert_eq!(clamped(0u8, 3, 7), 3);
}

#[test]
fn clamped_lowers_to_the_upper_bound() {
    assert_eq!(clamped(11, 0, 10), 10);
    assert_eq!(clamped(255u8, 3, 7), 7);
}

#[test]
fn clamped_keeps_the_bounds_themselves() {
    assert_eq!(clamped(0, 0, 10), 0);
    assert_eq!(clamped(10, 0, 10), 10);
    assert_eq!(clamped(4, 4, 4), 4);
}

#[test]
fn clamped_twice_is_clamped_once() {
    for x in -5..15 {
        let once = clamped(x, 0, 10);
        assert!(0 <= once && once <= 10);
        assert_eq!(clamped(once, 0, 10), once);
    }
}

#[test]
fn clamped_bounds_a_roughness() {
    assert_eq!(clamped(0.4f32, 0.0, 1.0), 0.4);
    assert_eq!(clamped(1.5f32, 0.0, 1.0), 1.0);
    assert_eq!(clamped(-0.5f32, 0.0, 1.0), 0.0);
    assert_eq!(clamped(0.0f32, 0.0, 1.0), 0.0);
    assert_eq!(clamped(1.0f32, 0.0, 1.0), 1.0);
}

#[test]
fn clamped_leaves_what_compares_with_neither_bound() {
    assert!(clamped(f32::NAN, 0.0, 1.0).is_nan());
}

#[test]
fn clamped_orders_strings_too() {
    assert_eq!(clamped("m", "b", "x"), "m");
    assert_eq!(clamped("a", "b", "x"), "b");
    assert_eq!(clamped("z", "b", "x"), "x");
}
