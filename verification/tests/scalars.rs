use raytracer::clamp;
use raytracer::degrees_to_radians;
use raytracer::fixed::Fixed;
use raytracer::fixed::SCALE;
use raytracer::trig::asin;
use raytracer::trig::atan2;
use raytracer::trig::cos;
use raytracer::trig::pi;
use raytracer::trig::sin;
use raytracer::trig::tan;
use raytracer::trig::wrap_angle;

fn raw(n: i64) -> Fixed {
    Fixed::from_raw(n)
}

fn of_float(x: f64) -> Fixed {
    Fixed::from_raw((x * 1e6).round() as i64)
}

fn to_float(x: Fixed) -> f64 {
    x.raw() as f64 / 1e6
}

#[test]
fn scale_is_a_million() {
    assert_eq!(SCALE, 1_000_000);
    assert_eq!(Fixed::one().raw(), 1_000_000);
    assert_eq!(Fixed::zero().raw(), 0);
}

#[test]
fn conversions_are_exact() {
    assert_eq!(Fixed::from_int(3).raw(), 3_000_000);
    assert_eq!(Fixed::from_int(-7).raw(), -7_000_000);
    assert_eq!(Fixed::from_millis(1500).raw(), 1_500_000);
    assert_eq!(Fixed::from_ratio(1, 3).raw(), 333_333);
    assert_eq!(Fixed::from_ratio(-1, 3).raw(), -333_333);
    assert_eq!(Fixed::from_ratio(16, 9).raw(), 1_777_777);
    assert_eq!(Fixed::from_ratio(1, -4).raw(), -250_000);
}

#[test]
fn conversions_saturate() {
    assert_eq!(Fixed::from_int(i64::MAX), Fixed::max_value());
    assert_eq!(Fixed::from_int(i64::MIN), Fixed::min_value());
    assert_eq!(Fixed::from_ratio(5, 0), Fixed::max_value());
    assert_eq!(Fixed::from_ratio(-5, 0), Fixed::min_value());
    assert_eq!(Fixed::from_ratio(0, 0), Fixed::zero());
}

#[test]
fn sums_and_differences() {
    assert_eq!(raw(1_500_000).add(raw(2_250_000)), raw(3_750_000));
    assert_eq!(raw(1_500_000).sub(raw(2_250_000)), raw(-750_000));
    assert_eq!(raw(5).neg(), raw(-5));
    assert_eq!(raw(-5).abs(), raw(5));
    assert_eq!(raw(5).abs(), raw(5));
}

#[test]
fn sums_saturate_at_the_ends() {
    assert_eq!(Fixed::max_value().add(raw(1)), Fixed::max_value());
    assert_eq!(Fixed::min_value().sub(raw(1)), Fixed::min_value());
    assert_eq!(Fixed::min_value().neg(), Fixed::max_value());
    assert_eq!(Fixed::min_value().abs(), Fixed::max_value());
    assert_eq!(Fixed::max_value().neg(), raw(i64::MIN + 1));
}

#[test]
fn products_round_toward_zero() {
    assert_eq!(raw(1_500_000).mul(raw(2_000_000)), raw(3_000_000));
    assert_eq!(raw(333_333).mul(raw(3_000_000)), raw(999_999));
    assert_eq!(raw(1).mul(raw(999_999)), raw(0));
    assert_eq!(raw(-1).mul(raw(999_999)), raw(0));
    assert_eq!(raw(-1_500_000).mul(raw(1_000_001)), raw(-1_500_001));
    assert_eq!(raw(-1_500_000).mul(raw(-2_000_000)), raw(3_000_000));
}

#[test]
fn products_saturate() {
    assert_eq!(Fixed::max_value().mul(raw(2_000_000)), Fixed::max_value());
    assert_eq!(Fixed::max_value().mul(raw(-2_000_000)), Fixed::min_value());
    assert_eq!(Fixed::min_value().mul(Fixed::min_value()), Fixed::max_value());
}

#[test]
fn quotients_round_toward_zero() {
    assert_eq!(raw(1_000_000).div(raw(3_000_000)), raw(333_333));
    assert_eq!(raw(-1_000_000).div(raw(3_000_000)), raw(-333_333));
    assert_eq!(raw(1_000_000).div(raw(-3_000_000)), raw(-333_333));
    assert_eq!(raw(-1_000_000).div(raw(-3_000_000)), raw(333_333));
    assert_eq!(raw(7_000_000).div(raw(2_000_000)), raw(3_500_000));
}

#[test]
fn quotients_by_zero_are_the_ends_of_the_range() {
    assert_eq!(raw(1).div(raw(0)), Fixed::max_value());
    assert_eq!(raw(-1).div(raw(0)), Fixed::min_value());
    assert_eq!(raw(0).div(raw(0)), raw(0));
    assert_eq!(Fixed::max_value().div(raw(1)), Fixed::max_value());
}

#[test]
fn square_roots_round_down() {
    assert_eq!(raw(4_000_000).sqrt(), raw(2_000_000));
    assert_eq!(raw(2_000_000).sqrt(), raw(1_414_213));
    assert_eq!(raw(250_000).sqrt(), raw(500_000));
    assert_eq!(raw(1).sqrt(), raw(1_000));
    assert_eq!(raw(0).sqrt(), raw(0));
    assert_eq!(raw(-4_000_000).sqrt(), raw(0));
}

#[test]
fn square_root_of_the_largest_value() {
    let root = Fixed::max_value().sqrt();
    let exact = ((i64::MAX as f64) * 1e6).sqrt();
    assert!((root.raw() as f64 - exact).abs() < 2.0);
    let r = root.raw() as i128;
    let n = (i64::MAX as i128) * 1_000_000;
    assert!(r * r <= n && n < (r + 1) * (r + 1));
}

#[test]
fn order_and_extremes() {
    assert!(raw(1).lt(raw(2)));
    assert!(!raw(2).lt(raw(2)));
    assert!(raw(2).le(raw(2)));
    assert!(raw(3).gt(raw(2)));
    assert!(raw(2).ge(raw(2)));
    assert_eq!(raw(1).min(raw(2)), raw(1));
    assert_eq!(raw(1).max(raw(2)), raw(2));
    assert_eq!(clamp(raw(5), raw(0), raw(3)), raw(3));
    assert_eq!(clamp(raw(-5), raw(0), raw(3)), raw(0));
    assert_eq!(clamp(raw(2), raw(0), raw(3)), raw(2));
}

#[test]
fn floor_and_fraction() {
    assert_eq!(raw(2_750_000).floor_units(), 2);
    assert_eq!(raw(2_750_000).fract(), raw(750_000));
    assert_eq!(raw(-2_750_000).floor_units(), -3);
    assert_eq!(raw(-2_750_000).fract(), raw(250_000));
    assert_eq!(raw(-1).floor_units(), -1);
    assert_eq!(raw(-1).fract(), raw(999_999));
    assert_eq!(raw(-3_000_000).floor_units(), -3);
    assert_eq!(raw(-3_000_000).fract(), raw(0));
    assert_eq!(Fixed::min_value().floor_units(), -9_223_372_036_855);
}

#[test]
fn half_turn_in_radians() {
    assert_eq!(degrees_to_radians(Fixed::from_int(180)), pi());
    assert_eq!(degrees_to_radians(Fixed::from_int(90)), raw(1_570_796));
    assert_eq!(pi().raw(), 3_141_593);
}

#[test]
fn angles_wrap_into_one_turn() {
    assert_eq!(wrap_angle(raw(0)), raw(0));
    assert_eq!(wrap_angle(raw(3_141_593)), raw(3_141_593));
    assert_eq!(wrap_angle(raw(3_141_594)), raw(3_141_594 - 6_283_185));
    assert_eq!(wrap_angle(raw(6_283_185)), raw(0));
    assert_eq!(wrap_angle(raw(-1)), raw(-1));
    assert_eq!(wrap_angle(raw(-6_283_185 - 5)), raw(-5));
}

#[test]
fn sine_at_known_angles() {
    assert_eq!(sin(raw(0)), raw(0));
    assert_eq!(sin(raw(1_570_796)), raw(1_000_000));
    assert_eq!(sin(raw(-1_570_796)), raw(-1_000_000));
    assert_eq!(sin(raw(523_599)), raw(500_000));
    assert_eq!(sin(raw(3_141_593)), raw(0));
    assert_eq!(cos(raw(0)), raw(1_000_000));
}

#[test]
fn sine_and_cosine_follow_the_true_functions() {
    let mut i = -20_000i64;
    while i <= 20_000 {
        let x = i as f64 * 0.001;
        assert!((to_float(sin(of_float(x))) - x.sin()).abs() < 1e-5, "sin({})", x);
        assert!((to_float(cos(of_float(x))) - x.cos()).abs() < 1e-5, "cos({})", x);
        i += 7;
    }
}

#[test]
fn tangent_follows_the_true_function() {
    let mut i = -1_400i64;
    while i <= 1_400 {
        let x = i as f64 * 0.001;
        assert!((to_float(tan(of_float(x))) - x.tan()).abs() < 1e-3, "tan({})", x);
        i += 10;
    }
    assert!((to_float(tan(raw(785_398))) - 1.0).abs() < 1e-5);
}

#[test]
fn arctangent_in_every_quadrant() {
    assert_eq!(atan2(raw(0), raw(0)), raw(0));
    assert_eq!(atan2(raw(0), raw(1_000_000)), raw(0));
    assert_eq!(atan2(raw(1_000_000), raw(0)), raw(1_570_796));
    assert_eq!(atan2(raw(-1_000_000), raw(0)), raw(-1_570_796));
    assert_eq!(atan2(raw(0), raw(-1_000_000)), raw(3_141_593));
    let mut i = -50i64;
    while i <= 50 {
        let mut j = -50i64;
        while j <= 50 {
            if i != 0 || j != 0 {
                let y = i as f64 * 0.1;
                let x = j as f64 * 0.1;
                let got = to_float(atan2(of_float(y), of_float(x)));
                assert!((got - y.atan2(x)).abs() < 1e-5, "atan2({}, {})", y, x);
            }
            j += 1;
        }
        i += 1;
    }
}

#[test]
fn arcsine_follows_the_true_function() {
    assert_eq!(asin(raw(1_000_000)), raw(1_570_796));
    assert_eq!(asin(raw(-1_000_000)), raw(-1_570_796));
    assert_eq!(asin(raw(0)), raw(0));
    assert_eq!(asin(raw(2_000_000)), raw(1_570_796));
    let mut i = -99i64;
    while i <= 99 {
        let y = i as f64 * 0.01;
        assert!((to_float(asin(of_float(y))) - y.asin()).abs() < 1e-4, "asin({})", y);
        i += 1;
    }
}
