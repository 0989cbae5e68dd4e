use bevy_aspect_ratio_mask::Ratio;

#[test]
fn new_reduces_to_lowest_terms() {
    assert_eq!(Ratio::new(6, 4), Some(Ratio { num: 3, den: 2 }));
    assert_eq!(Ratio::new(1920, 960), Some(Ratio { num: 2, den: 1 }));
    assert_eq!(Ratio::new(173640, 777), Some(Ratio { num: 57880, den: 259 }));
    assert_eq!(Ratio::new(7, 13), Some(Ratio { num: 7, den: 13 }));
}

#[test]
fn new_keeps_the_sign_in_the_numerator() {
    assert_eq!(Ratio::new(-6, 4), Some(Ratio { num: -3, den: 2 }));
    assert_eq!(Ratio::new(-320, 2), Some(Ratio { num: -160, den: 1 }));
    assert_eq!(Ratio::new(-1, 3), Some(Ratio { num: -1, den: 3 }));
}

#[test]
fn new_of_zero_is_zero_over_one() {
    assert_eq!(Ratio::new(0, 5), Some(Ratio { num: 0, den: 1 }));
    assert_eq!(Ratio::new(0, u64::MAX), Some(Ratio::zero()));
}

#[test]
fn new_refuses_a_zero_denominator() {
    assert_eq!(Ratio::new(1, 0), None);
    assert_eq!(Ratio::new(0, 0), None);
    assert_eq!(Ratio::new(-5, 0), None);
}

#[test]
fn new_handles_the_extremes() {
    assert_eq!(Ratio::new(i128::MIN, 1), Some(Ratio { num: i128::MIN, den: 1 }));
    assert_eq!(Ratio::new(i128::MIN, 2), Some(Ratio { num: i128::MIN / 2, den: 1 }));
    assert_eq!(Ratio::new(i128::MAX, 1), Some(Ratio { num: i128::MAX, den: 1 }));
    assert_eq!(Ratio::new(i128::MIN, u64::MAX), Some(Ratio { num: i128::MIN, den: u64::MAX }));
    assert_eq!(
        Ratio::new(u64::MAX as i128, u64::MAX),
        Some(Ratio { num: 1, den: 1 })
    );
    assert_eq!(
        Ratio::new(-(u64::MAX as i128) * 3, u64::MAX),
        Some(Ratio { num: -3, den: 1 })
    );
}

#[test]
fn equal_fractions_reduce_to_the_same_value() {
    assert_eq!(Ratio::new(2, 4), Ratio::new(1, 2));
    assert_eq!(Ratio::new(-10, 4), Ratio::new(-25, 10));
    assert_eq!(Ratio::new(540, 540), Ratio::new(1, 1));
    assert_ne!(Ratio::new(1, 2), Ratio::new(1, 3));
    assert_ne!(Ratio::new(1, 2), Ratio::new(-1, 2));
}

#[test]
fn from_integer_is_the_number_over_one() {
    assert_eq!(Ratio::from_integer(320), Ratio { num: 320, den: 1 });
    assert_eq!(Ratio::from_integer(-160), Ratio { num: -160, den: 1 });
    assert_eq!(Ratio::from_integer(0), Ratio::zero());
    assert_eq!(Ratio::from_integer(i128::MIN), Ratio { num: i128::MIN, den: 1 });
    assert_eq!(Some(Ratio::from_integer(12)), Ratio::new(24, 2));
}

#[test]
fn zero_is_zero_over_one() {
    let z = Ratio::zero();
    assert_eq!(z.num, 0);
    assert_eq!(z.den, 1);
}
