use hw_control::config::CurvePoint;
use hw_control::curve::interpolate_speed;

/// Millidegrees Celsius for whole degrees.
fn deg(c: i32) -> i32 {
    c * 1000
}

fn pt(temp: i32, speed: u8) -> CurvePoint {
    CurvePoint { temp, speed }
}

#[test]
fn test_interpolation() {
    let points = vec![
        CurvePoint { temp: deg(30), speed: 50 },
        CurvePoint { temp: deg(50), speed: 100 },
        CurvePoint { temp: deg(70), speed: 200 },
    ];

    // Boundaries
    assert_eq!(interpolate_speed(deg(25), &points), 50);
    assert_eq!(interpolate_speed(deg(75), &points), 200);

    // Exact points
    assert_eq!(interpolate_speed(deg(30), &points), 50);
    assert_eq!(interpolate_speed(deg(50), &points), 100);
    assert_eq!(interpolate_speed(deg(70), &points), 200);

    // Mid points
    assert_eq!(interpolate_speed(deg(40), &points), 75); // Halfway between 30 and 50 is speed 75
    assert_eq!(interpolate_speed(deg(60), &points), 150); // Halfway between 50 and 70 is speed 150
}

#[test]
fn empty_curve_gives_zero() {
    assert_eq!(interpolate_speed(deg(40), &[]), 0);
}

#[test]
fn single_point_curve_is_constant() {
    let points = vec![pt(deg(50), 120)];
    assert_eq!(interpolate_speed(deg(10), &points), 120);
    assert_eq!(interpolate_speed(deg(90), &points), 120);
}

#[test]
fn interpolation_rounds_halves_up() {
    let points = vec![pt(0, 0), pt(2000, 1)];
    assert_eq!(interpolate_speed(1000, &points), 1);
    assert_eq!(interpolate_speed(999, &points), 0);
    let points = vec![pt(0, 10), pt(3000, 11)];
    assert_eq!(interpolate_speed(1000, &points), 10);
    assert_eq!(interpolate_speed(2000, &points), 11);
}

#[test]
fn interpolation_on_falling_curve() {
    let points = vec![pt(deg(20), 200), pt(deg(40), 100)];
    assert_eq!(interpolate_speed(deg(30), &points), 150);
    assert_eq!(interpolate_speed(deg(25), &points), 175);
}

#[test]
fn interpolation_at_fractional_temperatures() {
    let points = vec![pt(deg(30), 50), pt(deg(50), 100)];
    // 37.3 C: 50 + 7.3 * 2.5 = 68.25
    assert_eq!(interpolate_speed(37_300, &points), 68);
    // 37.4 C: 50 + 7.4 * 2.5 = 68.5, rounded up
    assert_eq!(interpolate_speed(37_400, &points), 69);
}

#[test]
fn zero_width_segment_gives_its_first_speed() {
    let points = vec![pt(deg(30), 50), pt(deg(40), 80), pt(deg(40), 200), pt(deg(60), 255)];
    assert_eq!(interpolate_speed(deg(40), &points), 80);
    assert_eq!(interpolate_speed(deg(50), &points), 228);
}

#[test]
fn unsorted_curve_uses_first_enclosing_segment() {
    let points = vec![pt(deg(30), 10), pt(deg(80), 20), pt(deg(40), 30), pt(deg(90), 40)];
    // 85 C: 30..80 and 80..40 do not enclose it, 40..90 does.
    assert_eq!(interpolate_speed(deg(85), &points), 39);
    // 60 C: already 30..80 encloses it.
    assert_eq!(interpolate_speed(deg(60), &points), 16);
}

#[test]
fn speed_never_decreases_on_rising_curve() {
    let points = vec![pt(deg(30), 50), pt(deg(50), 100), pt(deg(70), 180), pt(deg(85), 255)];
    let mut previous = 0u8;
    let mut t = deg(0);
    while t <= deg(100) {
        let s = interpolate_speed(t, &points);
        assert!(s >= previous, "speed fell at {} millidegrees", t);
        previous = s;
        t += 250;
    }
}

#[test]
fn curve_is_exact_at_its_points() {
    let points = vec![pt(deg(35), 0), pt(deg(55), 90), pt(deg(75), 170), pt(deg(85), 255)];
    for p in &points {
        assert_eq!(interpolate_speed(p.temp, &points), p.speed);
    }
}

#[test]
fn speed_stays_within_curve_speeds() {
    let points = vec![pt(deg(20), 60), pt(deg(40), 20), pt(deg(60), 240)];
    let mut t = deg(0);
    while t <= deg(80) {
        let s = interpolate_speed(t, &points);
        assert!((20..=240).contains(&s));
        t += 333;
    }
}
