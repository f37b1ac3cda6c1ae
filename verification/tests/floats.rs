use ares::equality::equal_values;
use ares::float::{
    ceil_bits, float_bits_equal, float_to_int, floor_bits, int_to_float, is_finite_bits,
    is_infinite_bits, is_nan_bits, is_negative_bits, is_normal_bits, power_of_two, round_bits,
};
use ares::Value;

/// Numbers of many kinds: small and large, whole and not, and what is no
/// number.
fn samples() -> Vec<f64> {
    let mut out = vec![
        0.0,
        -0.0,
        0.4,
        0.5,
        0.99999,
        1.0,
        1.5,
        -1.5,
        2.5,
        1e10,
        -1e10,
        4503599627370496.0,
        4503599627370497.0,
        9007199254740992.0,
        9007199254740993.0,
        9223372036854774784.0,
        9223372036854775807.0,
        -9223372036854775808.0,
        -9223372036854777856.0,
        1e19,
        -1e19,
        1e300,
        f64::MAX,
        f64::MIN,
        f64::MIN_POSITIVE,
        f64::MIN_POSITIVE / 4.0,
        f64::EPSILON,
        f64::INFINITY,
        f64::NEG_INFINITY,
        f64::NAN,
        -f64::NAN,
    ];
    let mut x: f64 = 0.7;
    for _ in 0..400 {
        out.push(x);
        out.push(-x);
        x = x * 1.37 + 0.11;
    }
    out
}

/// Integers of many kinds: near zero, near the powers of two, and where the
/// nearest number is not the integer itself.
fn integers() -> Vec<i64> {
    let mut out = vec![0, 1, -1, 2, 3, 7, 100, -100, i64::MAX, i64::MIN, i64::MAX - 1, i64::MIN + 1];
    for k in 0..63 {
        let p = 1i64 << k;
        for d in [-3i64, -2, -1, 0, 1, 2, 3] {
            out.push(p.wrapping_add(d));
            out.push(p.wrapping_add(d).wrapping_neg());
        }
    }
    for k in 53..63 {
        let p = 1i64 << k;
        let half = 1i64 << (k - 53);
        for q in [1i64, 2, 3, 4, 5] {
            for d in [-1i64, 0, 1] {
                out.push(p + q * half + d);
                out.push(-(p + q * half + d));
                out.push(p - q * half + d);
            }
        }
    }
    let mut x: i64 = 12345;
    for _ in 0..500 {
        out.push(x);
        x = x.wrapping_mul(6364136223846793005).wrapping_add(1442695040888963407);
    }
    out
}

#[test]
fn truncation_is_that_of_the_machine() {
    for f in samples() {
        assert_eq!(float_to_int(f.to_bits()), f as i64, "{:?}", f);
    }
}

#[test]
fn the_nearest_number_is_that_of_the_machine() {
    for i in integers() {
        assert_eq!(int_to_float(i), (i as f64).to_bits(), "{}", i);
    }
}

#[test]
fn equality_is_that_of_the_machine() {
    let all = samples();
    for a in all.iter().take(40) {
        for b in all.iter().take(40) {
            assert_eq!(float_bits_equal(a.to_bits(), b.to_bits()), a == b, "{:?} {:?}", a, b);
            assert_eq!(
                equal_values(&Value::Float(a.to_bits()), &Value::Float(b.to_bits())),
                a == b
            );
        }
    }
}

#[test]
fn powers_of_two() {
    assert_eq!(power_of_two(0), 1);
    assert_eq!(power_of_two(10), 1024);
    assert_eq!(power_of_two(63), 1u64 << 63);
}

#[test]
fn rounding_is_that_of_the_machine() {
    let mut all = samples();
    for k in 0..60 {
        let p = (1u64 << k) as f64;
        for d in [0.0, 0.25, 0.5, 0.75] {
            all.push(p + d);
            all.push(-(p + d));
            all.push(p - d);
        }
    }
    for f in all {
        let bits = f.to_bits();
        assert_eq!(floor_bits(bits), f.floor() as i64, "floor {:?}", f);
        assert_eq!(ceil_bits(bits), f.ceil() as i64, "ceil {:?}", f);
        assert_eq!(round_bits(bits), f.round() as i64, "round {:?}", f);
        assert_eq!(float_to_int(bits), f.trunc() as i64, "trunc {:?}", f);
        assert_eq!(is_nan_bits(bits), f.is_nan(), "{:?}", f);
        assert_eq!(is_infinite_bits(bits), f.is_infinite(), "{:?}", f);
        assert_eq!(is_finite_bits(bits), f.is_finite(), "{:?}", f);
        assert_eq!(is_normal_bits(bits), f.is_normal(), "{:?}", f);
        assert_eq!(is_negative_bits(bits), f.is_sign_negative(), "{:?}", f);
    }
}
