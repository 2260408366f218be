use search::float::{Double, Single};

fn samples() -> Vec<f32> {
    vec![
        0.0,
        -0.0,
        1.0,
        -1.0,
        0.5,
        0.99999994,
        1.0000001,
        f32::MIN_POSITIVE,
        -f32::MIN_POSITIVE,
        f32::from_bits(1),
        -f32::from_bits(1),
        f32::MAX,
        f32::MIN,
        f32::INFINITY,
        f32::NEG_INFINITY,
        f32::NAN,
        -f32::NAN,
    ]
}

#[test]
fn bit_patterns_compare_as_the_numbers_do() {
    for number in samples() {
        let single = Single { bits: number.to_bits() };
        assert_eq!(single.is_above_one(), number > 1.0, "{}", number);
        assert_eq!(single.is_below_zero(), number < 0.0, "{}", number);
        assert_eq!(single.is_zero(), number == 0.0, "{}", number);
        assert_eq!(single.is_one(), number == 1.0, "{}", number);
        assert_eq!(single.is_number(), !number.is_nan(), "{}", number);
    }
}

#[test]
fn bit_patterns_are_equal_as_the_numbers_are() {
    for left in samples() {
        for right in samples() {
            let singles = (Single { bits: left.to_bits() }, Single { bits: right.to_bits() });
            assert_eq!(singles.0 == singles.1, left == right, "{} {}", left, right);
            let (left, right) = (f64::from(left), f64::from(right));
            let doubles = (Double { bits: left.to_bits() }, Double { bits: right.to_bits() });
            assert_eq!(doubles.0 == doubles.1, left == right, "{} {}", left, right);
        }
    }
}
