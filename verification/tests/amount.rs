use payments_ledger::exact::{adds_up, reduce, scale_up, MAX_MANTISSA, MAX_SCALE, SUM_LIMIT};
use payments_ledger::Amount;
use rust_decimal::Decimal;
use std::str::FromStr;

fn amt(mantissa: i128, scale: u32) -> Amount {
    Amount::new(mantissa, scale).unwrap()
}

fn from_text(text: &str) -> Amount {
    let d = Decimal::from_str(text).unwrap();
    Amount::new(d.mantissa(), d.scale()).unwrap()
}

#[test]
fn new_takes_what_a_decimal_can_hold() {
    assert!(Amount::new(0, 0).is_some());
    assert!(Amount::new(MAX_MANTISSA, MAX_SCALE).is_some());
    assert!(Amount::new(-MAX_MANTISSA, 0).is_some());
    assert!(Amount::new(MAX_MANTISSA + 1, 0).is_none());
    assert!(Amount::new(-MAX_MANTISSA - 1, 0).is_none());
    assert!(Amount::new(1, MAX_SCALE + 1).is_none());
    assert!(Amount::new(i128::MAX, 0).is_none());
    assert!(Amount::new(i128::MIN, 0).is_none());
}

#[test]
fn new_keeps_the_parts() {
    let a = amt(-314, 2);
    assert_eq!(a.mantissa(), -314);
    assert_eq!(a.scale(), 2);
    let z = Amount::zero();
    assert_eq!(z.mantissa(), 0);
    assert_eq!(z.scale(), 0);
}

#[test]
fn parts_are_those_of_the_decimal() {
    let a = from_text("3.14");
    assert_eq!(a.mantissa(), 314);
    assert_eq!(a.scale(), 2);
    let b = from_text("-0.0001");
    assert_eq!(b.mantissa(), -1);
    assert_eq!(b.scale(), 4);
}

#[test]
fn equality_is_by_value() {
    assert_eq!(amt(10, 1), amt(1, 0));
    assert_eq!(amt(0, 4), amt(0, 0));
    assert_eq!(amt(-2500, 3), amt(-25, 1));
    assert_ne!(amt(10, 1), amt(10, 0));
    assert_ne!(amt(1, 0), amt(-1, 0));
    assert_eq!(amt(MAX_MANTISSA, 0), amt(MAX_MANTISSA, 0));
    assert_ne!(amt(MAX_MANTISSA, 0), amt(MAX_MANTISSA, 28));
}

#[test]
fn at_least_orders_by_value() {
    assert!(amt(10, 1).at_least(&amt(1, 0)));
    assert!(amt(11, 1).at_least(&amt(1, 0)));
    assert!(!amt(9, 1).at_least(&amt(1, 0)));
    assert!(amt(0, 0).at_least(&amt(-1, 4)));
    assert!(!amt(-1, 4).at_least(&amt(0, 0)));
    assert!(amt(-1, 4).at_least(&amt(-1, 3)));
    assert!(amt(MAX_MANTISSA, 0).at_least(&amt(MAX_MANTISSA, 28)));
    assert!(!amt(MAX_MANTISSA, 28).at_least(&amt(MAX_MANTISSA, 0)));
}

#[test]
fn checked_add_gives_the_exact_sum() {
    let s = amt(10, 1).checked_add(&amt(2, 0)).unwrap();
    assert_eq!(s, amt(3, 0));
    assert_eq!((s.mantissa(), s.scale()), (30, 1));
    let t = amt(314, 2).checked_add(&amt(-314, 2)).unwrap();
    assert_eq!(t, amt(0, 0));
    let u = amt(1, 4).checked_add(&amt(1, 0)).unwrap();
    assert_eq!((u.mantissa(), u.scale()), (10001, 4));
}

#[test]
fn checked_add_agrees_with_the_decimal() {
    let a = "1234.5678";
    let b = "0.00004321";
    let s = from_text(a).checked_add(&from_text(b)).unwrap();
    let d = Decimal::from_str(a).unwrap() + Decimal::from_str(b).unwrap();
    assert_eq!((s.mantissa(), s.scale()), (d.mantissa(), d.scale()));
    assert_eq!(s, from_text("1234.56784321"));
}

#[test]
fn checked_add_refuses_what_overflows() {
    assert_eq!(amt(MAX_MANTISSA, 0).checked_add(&amt(1, 0)), None);
    assert_eq!(amt(-MAX_MANTISSA, 0).checked_add(&amt(-1, 0)), None);
    assert!(amt(MAX_MANTISSA, 0).checked_add(&amt(-1, 0)).is_some());
}

#[test]
fn checked_add_refuses_a_rounded_sum() {
    // The decimal library answers with a rounded value here: one digit is lost.
    let big = amt(MAX_MANTISSA, 28);
    let tiny = amt(1, 28);
    let d = Decimal::from_i128_with_scale(MAX_MANTISSA, 28)
        .checked_add(Decimal::from_i128_with_scale(1, 28));
    assert!(d.is_some());
    assert_eq!(big.checked_add(&tiny), None);
    // Half a unit is lost as well when a whole number takes a long fraction.
    assert_eq!(amt(MAX_MANTISSA, 0).checked_sub(&amt(5, 1)), None);
}

#[test]
fn checked_add_keeps_a_sum_that_lost_only_zeros() {
    let big = amt(MAX_MANTISSA, 28);
    let twice = big.checked_add(&big).unwrap();
    assert_eq!((twice.mantissa(), twice.scale()), (15845632502852867518708790067, 27));
    let seven = amt(70000000000000000000000000000, 0);
    let one = amt(10000000000000000000000000000, 28);
    let sum = seven.checked_add(&one).unwrap();
    assert_eq!((sum.mantissa(), sum.scale()), (70000000000000000000000000001, 0));
}

#[test]
fn checked_sub_gives_the_exact_difference() {
    let d = amt(100, 1).checked_sub(&amt(35, 1)).unwrap();
    assert_eq!(d, amt(65, 1));
    assert_eq!((d.mantissa(), d.scale()), (65, 1));
    let e = amt(65, 1).checked_sub(&amt(100, 1)).unwrap();
    assert_eq!((e.mantissa(), e.scale()), (-35, 1));
    let f = amt(1, 0).checked_sub(&amt(1, 4)).unwrap();
    assert_eq!((f.mantissa(), f.scale()), (9999, 4));
}

#[test]
fn checked_sub_refuses_what_overflows() {
    assert_eq!(amt(-MAX_MANTISSA, 0).checked_sub(&amt(1, 0)), None);
    assert_eq!(amt(MAX_MANTISSA, 0).checked_sub(&amt(-1, 0)), None);
}

#[test]
fn confirm_sum_keeps_only_the_exact_answer() {
    let a = amt(10, 1);
    let b = amt(5, 0);
    assert_eq!(Amount::confirm_sum(a, b, Some(amt(60, 1))), Some(amt(6, 0)));
    assert_eq!(Amount::confirm_sum(a, b, Some(amt(6, 0))), Some(amt(6, 0)));
    assert_eq!(Amount::confirm_sum(a, b, Some(amt(61, 1))), None);
    assert_eq!(Amount::confirm_sum(a, b, Some(a)), None);
    assert_eq!(Amount::confirm_sum(a, b, None), None);
}

#[test]
fn confirm_difference_keeps_only_the_exact_answer() {
    let a = amt(10, 1);
    let b = amt(5, 0);
    assert_eq!(Amount::confirm_difference(a, b, Some(amt(-4, 0))), Some(amt(-4, 0)));
    assert_eq!(Amount::confirm_difference(a, b, Some(amt(-40000, 4))), Some(amt(-4, 0)));
    assert_eq!(Amount::confirm_difference(a, b, Some(amt(4, 0))), None);
    assert_eq!(Amount::confirm_difference(a, b, Some(a)), None);
    assert_eq!(Amount::confirm_difference(a, b, None), None);
}

#[test]
fn round_dp_goes_to_the_nearest() {
    let r = amt(123456, 5).round_dp(4);
    assert_eq!((r.mantissa(), r.scale()), (12346, 4));
    let s = amt(123454, 5).round_dp(4);
    assert_eq!((s.mantissa(), s.scale()), (12345, 4));
    let t = amt(-123456, 5).round_dp(4);
    assert_eq!((t.mantissa(), t.scale()), (-12346, 4));
    let u = amt(-123454, 5).round_dp(4);
    assert_eq!((u.mantissa(), u.scale()), (-12345, 4));
}

#[test]
fn round_dp_sends_a_tie_to_the_even_neighbour() {
    let r = amt(100005, 5).round_dp(4);
    assert_eq!((r.mantissa(), r.scale()), (10000, 4));
    let s = amt(100015, 5).round_dp(4);
    assert_eq!((s.mantissa(), s.scale()), (10002, 4));
    let t = amt(-100005, 5).round_dp(4);
    assert_eq!((t.mantissa(), t.scale()), (-10000, 4));
    let u = amt(-100015, 5).round_dp(4);
    assert_eq!((u.mantissa(), u.scale()), (-10002, 4));
    let v = amt(65, 1).round_dp(0);
    assert_eq!((v.mantissa(), v.scale()), (6, 0));
    let w = amt(75, 1).round_dp(0);
    assert_eq!((w.mantissa(), w.scale()), (8, 0));
    let x = amt(25000000000000000000000000001, 28).round_dp(0);
    assert_eq!((x.mantissa(), x.scale()), (3, 0));
}

#[test]
fn round_dp_leaves_short_fractions_alone() {
    let r = amt(15, 1).round_dp(4);
    assert_eq!((r.mantissa(), r.scale()), (15, 1));
    let s = amt(12345, 4).round_dp(4);
    assert_eq!((s.mantissa(), s.scale()), (12345, 4));
    let t = amt(7, 0).round_dp(40);
    assert_eq!((t.mantissa(), t.scale()), (7, 0));
}

#[test]
fn round_dp_of_small_values_and_zero() {
    let r = amt(-1, 5).round_dp(4);
    assert_eq!((r.mantissa(), r.scale()), (0, 4));
    let s = amt(0, 9).round_dp(4);
    assert_eq!((s.mantissa(), s.scale()), (0, 4));
    let t = amt(MAX_MANTISSA, 28).round_dp(4);
    assert_eq!((t.mantissa(), t.scale()), (79228, 4));
}

#[test]
fn text_shows_the_scale() {
    assert_eq!(amt(15, 1).text(), "1.5");
    assert_eq!(amt(150, 2).text(), "1.50");
    assert_eq!(amt(2, 0).text(), "2");
    assert_eq!(amt(-35, 1).text(), "-3.5");
    assert_eq!(amt(1, 4).text(), "0.0001");
    assert_eq!(amt(0, 0).text(), "0");
    assert_eq!(amt(0, 3).text(), "0.000");
    assert_eq!(amt(MAX_MANTISSA, 0).text(), "79228162514264337593543950335");
    assert_eq!(amt(-MAX_MANTISSA, 28).text(), "-7.9228162514264337593543950335");
    assert_eq!(amt(-1, 28).text(), "-0.0000000000000000000000000001");
}

#[test]
fn fixed_text_has_the_places_asked_for() {
    assert_eq!(amt(15, 1).fixed_text(4), "1.5000");
    assert_eq!(amt(2, 0).fixed_text(4), "2.0000");
    assert_eq!(amt(-35, 1).fixed_text(4), "-3.5000");
    assert_eq!(amt(12345, 4).fixed_text(4), "1.2345");
    assert_eq!(amt(0, 0).fixed_text(4), "0.0000");
    assert_eq!(amt(15, 1).fixed_text(0), "2");
    assert_eq!(amt(25, 1).fixed_text(0), "2");
    assert_eq!(amt(123456, 5).fixed_text(4), "1.2346");
    assert_eq!(amt(-1, 5).fixed_text(4), "0.0000");
    assert_eq!(amt(7, 0).fixed_text(28), "7.0000000000000000000000000000");
    assert_eq!(
        amt(MAX_MANTISSA, 0).fixed_text(4),
        "79228162514264337593543950335.0000"
    );
    assert_eq!(
        amt(-MAX_MANTISSA, 0).fixed_text(28),
        "-79228162514264337593543950335.0000000000000000000000000000"
    );
    assert_eq!(
        amt(MAX_MANTISSA, 28).fixed_text(28),
        "7.9228162514264337593543950335"
    );
}

#[test]
fn reduce_drops_trailing_zeros() {
    assert_eq!(reduce(1500, 3), (15, 1));
    assert_eq!(reduce(-1500, 3), (-15, 1));
    assert_eq!(reduce(1500, 1), (150, 0));
    assert_eq!(reduce(0, 7), (0, 0));
    assert_eq!(reduce(1501, 3), (1501, 3));
    assert_eq!(reduce(MAX_MANTISSA, 28), (MAX_MANTISSA, 28));
}

#[test]
fn scale_up_multiplies_by_a_power_of_ten() {
    assert_eq!(scale_up(15, 0), Some(15));
    assert_eq!(scale_up(15, 3), Some(15000));
    assert_eq!(scale_up(-15, 3), Some(-15000));
    assert_eq!(scale_up(0, 28), Some(0));
    assert_eq!(scale_up(1, 28), Some(10000000000000000000000000000));
    assert_eq!(scale_up(15, 28), Some(150000000000000000000000000000));
    assert_eq!(scale_up(16, 28), None);
    assert_eq!(scale_up(-16, 28), None);
    assert_eq!(scale_up(SUM_LIMIT, 0), Some(SUM_LIMIT));
    assert_eq!(scale_up(SUM_LIMIT, 1), None);
    assert_eq!(scale_up(SUM_LIMIT / 10, 1), Some(SUM_LIMIT / 10 * 10));
    assert_eq!(scale_up(SUM_LIMIT / 10 + 1, 1), None);
    assert_eq!(scale_up(-(SUM_LIMIT / 10) - 1, 1), None);
}

#[test]
fn adds_up_decides_exactly() {
    assert!(adds_up((10, 1), (5, 0), (60, 1)));
    assert!(adds_up((10, 1), (5, 0), (6, 0)));
    assert!(adds_up((10, 1), (5, 0), (6000, 3)));
    assert!(!adds_up((10, 1), (5, 0), (61, 1)));
    assert!(adds_up((1, 28), (-1, 28), (0, 0)));
    assert!(adds_up((0, 0), (0, 28), (0, 14)));
    assert!(adds_up((-35, 1), (100, 1), (65, 1)));
    assert!(!adds_up((-35, 1), (100, 1), (-65, 1)));
}

#[test]
fn adds_up_at_the_limits() {
    assert!(adds_up((MAX_MANTISSA, 0), (-MAX_MANTISSA, 0), (0, 5)));
    assert!(adds_up((MAX_MANTISSA, 28), (-1, 28), (MAX_MANTISSA - 1, 28)));
    assert!(adds_up(
        (70000000000000000000000000000, 0),
        (10000000000000000000000000000, 28),
        (70000000000000000000000000001, 0)
    ));
    assert!(!adds_up((MAX_MANTISSA, 0), (1, 28), (MAX_MANTISSA, 0)));
    assert!(!adds_up((MAX_MANTISSA, 28), (1, 28), (7922816251426433759354395034, 27)));
    assert!(adds_up(
        (MAX_MANTISSA, 28),
        (MAX_MANTISSA, 28),
        (15845632502852867518708790067, 27)
    ));
    assert!(!adds_up((MAX_MANTISSA, 0), (MAX_MANTISSA, 0), (MAX_MANTISSA, 0)));
}
