use counter_agg::double::Double;
use counter_agg::double::ELEVEN_TENTHS_BITS;
use counter_agg::double::INFINITY_BITS;
use counter_agg::double::MICROS_PER_SECOND_BITS;
use counter_agg::double::SIGN_BIT;
use counter_agg::double::TWO_BITS;
use counter_agg::double::ZERO_BITS;
use counter_agg::metrics::seconds;

fn d(x: f64) -> Double {
    Double::from_bits(x.to_bits())
}

fn f(x: Double) -> f64 {
    f64::from_bits(x.to_bits())
}

fn samples() -> Vec<f64> {
    vec![
        0.0,
        -0.0,
        1.0,
        -1.0,
        0.1,
        -0.1,
        1.5,
        10.0,
        1e-310,
        -1e-310,
        5e-324,
        1e16,
        1.0e300,
        -1.0e300,
        f64::MAX,
        f64::MIN,
        f64::MIN_POSITIVE,
        f64::INFINITY,
        f64::NEG_INFINITY,
        f64::NAN,
        9007199254740993.0,
        123456.789,
    ]
}

#[test]
fn constants_are_the_doubles_they_name() {
    assert_eq!(f64::from_bits(ZERO_BITS), 0.0);
    assert!(f64::from_bits(ZERO_BITS).is_sign_positive());
    assert_eq!(f64::from_bits(TWO_BITS), 2.0);
    assert_eq!(f64::from_bits(ELEVEN_TENTHS_BITS), 1.1);
    assert_eq!(f64::from_bits(MICROS_PER_SECOND_BITS), 1_000_000.0);
    assert_eq!(f64::from_bits(INFINITY_BITS), f64::INFINITY);
    assert_eq!(SIGN_BIT, (-0.0f64).to_bits());
    assert_eq!(Double::zero().to_bits(), 0);
}

#[test]
fn comparisons_are_those_of_the_machine() {
    for a in samples() {
        assert_eq!(d(a).is_nan(), a.is_nan(), "is_nan {a}");
        for b in samples() {
            assert_eq!(d(a).lt(d(b)), a < b, "{a} < {b}");
            assert_eq!(d(a).gt(d(b)), a > b, "{a} > {b}");
            assert_eq!(d(a).ge(d(b)), a >= b, "{a} >= {b}");
            assert_eq!(d(a).num_eq(d(b)), a == b, "{a} == {b}");
            assert_eq!(d(a).num_ne(d(b)), a != b, "{a} != {b}");
        }
    }
}

#[test]
fn every_nan_pattern_is_a_nan() {
    for bits in [
        0x7ff0_0000_0000_0001u64,
        0x7ff8_0000_0000_0000,
        0x7fff_ffff_ffff_ffff,
        0xfff0_0000_0000_0001,
        0xfff8_0000_0000_0000,
        0xffff_ffff_ffff_ffff,
    ] {
        assert!(Double::from_bits(bits).is_nan());
        assert!(f64::from_bits(bits).is_nan());
    }
    assert!(!Double::from_bits(0x7ff0_0000_0000_0000).is_nan());
    assert!(!Double::from_bits(0xfff0_0000_0000_0000).is_nan());
}

#[test]
fn arithmetic_is_that_of_the_machine() {
    for a in samples() {
        for b in samples() {
            let cases = [
                (f(d(a).plus(d(b))), a + b, "+"),
                (f(d(a).minus(d(b))), a - b, "-"),
                (f(d(a).times(d(b))), a * b, "*"),
                (f(d(a).over(d(b))), a / b, "/"),
            ];
            for (got, want, op) in cases {
                if want.is_nan() {
                    assert!(got.is_nan(), "{a} {op} {b}");
                } else {
                    assert_eq!(got.to_bits(), want.to_bits(), "{a} {op} {b}");
                }
            }
        }
    }
}

#[test]
fn arithmetic_rounds_to_nearest_even() {
    assert_eq!(f(d(0.1).plus(d(0.2))), 0.30000000000000004);
    assert_eq!(f(d(9007199254740992.0).plus(d(1.0))), 9007199254740992.0);
    assert_eq!(f(d(9007199254740992.0).plus(d(3.0))), 9007199254740996.0);
    assert_eq!(f(d(1.0).over(d(3.0))), 1.0 / 3.0);
    assert_eq!(f(d(10.0).over(d(60.0))), 0.16666666666666666);
    assert_eq!(f(d(3.0).times(d(0.1))), 0.30000000000000004);
    assert_eq!(f(d(1.0).minus(d(0.9))), 0.09999999999999998);
}

#[test]
fn integers_become_the_nearest_double() {
    let ints: [i128; 14] = [
        0,
        1,
        -1,
        1000,
        -60_000_000,
        1 << 53,
        (1 << 53) + 1,
        (1 << 53) + 3,
        -((1 << 53) + 1),
        i64::MAX as i128,
        i64::MIN as i128,
        u64::MAX as i128,
        i64::MAX as i128 - i64::MIN as i128,
        i64::MIN as i128 - i64::MAX as i128,
    ];
    for i in ints {
        assert_eq!(f(Double::from_int(i)), i as f64, "{i}");
    }
}

#[test]
fn seconds_are_a_millionth_of_microseconds() {
    assert_eq!(f(seconds(60_000_000)), 60.0);
    assert_eq!(f(seconds(1)), 1.0 / 1_000_000.0);
    assert_eq!(f(seconds(-1500)), -0.0015);
    assert_eq!(f(seconds(0)), 0.0);
}
