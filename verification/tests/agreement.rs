use payments_ledger::Amount;

/// A small generator of repeatable pseudo-random numbers.
struct Lcg(u64);

impl Lcg {
    fn next(&mut self) -> u64 {
        self.0 = self
            .0
            .wrapping_mul(6364136223846793005)
            .wrapping_add(1442695040888963407);
        self.0 >> 11
    }

    /// Parts from the whole range of a decimal.
    fn wide_parts(&mut self) -> (i128, u32) {
        let bits = self.next() % 97;
        let high = (self.next() as u128) << 53;
        let all = high ^ (self.next() as u128) ^ ((self.next() as u128) << 80);
        let magnitude = if bits == 0 { 0 } else { all >> (128 - bits) };
        let sign = if self.next() % 2 == 0 { 1 } else { -1 };
        (sign * magnitude as i128, (self.next() % 29) as u32)
    }

    /// A mantissa of up to 18 digits and a scale of up to 9.
    fn parts(&mut self) -> (i128, u32) {
        let digits = self.next() % 19;
        let magnitude = (self.next() as i128) % 10i128.pow(digits as u32).max(1);
        let sign = if self.next() % 2 == 0 { 1 } else { -1 };
        (sign * magnitude, (self.next() % 10) as u32)
    }
}

/// The value of `mantissa / 10^scale` in units of `10^-9`, for scales up to 9.
fn nano(mantissa: i128, scale: u32) -> i128 {
    mantissa * 10i128.pow(9 - scale)
}

fn half_even(mantissa: i128, step: i128) -> i128 {
    let below = mantissa.div_euclid(step);
    let rest = mantissa.rem_euclid(step);
    if 2 * rest < step || (2 * rest == step && below.rem_euclid(2) == 0) {
        below
    } else {
        below + 1
    }
}

#[test]
fn sums_and_differences_agree_with_integers() {
    let mut g = Lcg(1);
    for _ in 0..2000 {
        let (m1, s1) = g.parts();
        let (m2, s2) = g.parts();
        let a = Amount::new(m1, s1).unwrap();
        let b = Amount::new(m2, s2).unwrap();
        let sum = a.checked_add(&b).unwrap();
        assert!(sum.scale() <= 9);
        assert_eq!(nano(sum.mantissa(), sum.scale()), nano(m1, s1) + nano(m2, s2));
        let diff = a.checked_sub(&b).unwrap();
        assert!(diff.scale() <= 9);
        assert_eq!(nano(diff.mantissa(), diff.scale()), nano(m1, s1) - nano(m2, s2));
    }
}

#[test]
fn order_and_equality_agree_with_integers() {
    let mut g = Lcg(2);
    for round in 0..2000 {
        let (m1, s1) = g.parts();
        let (mut m2, mut s2) = g.parts();
        if round % 4 == 0 && s1 < 9 {
            // the same value at another scale
            m2 = m1 * 10;
            s2 = s1 + 1;
        }
        let a = Amount::new(m1, s1).unwrap();
        let b = Amount::new(m2, s2).unwrap();
        assert_eq!(a.at_least(&b), nano(m1, s1) >= nano(m2, s2));
        assert_eq!(b.at_least(&a), nano(m2, s2) >= nano(m1, s1));
        assert_eq!(a == b, nano(m1, s1) == nano(m2, s2));
    }
}

#[test]
fn rounding_agrees_with_integers() {
    let mut g = Lcg(3);
    for round in 0..4000 {
        let (mut m, s) = g.parts();
        let places = (g.next() % 10) as u32;
        if round % 3 == 0 && s > places {
            // a tie: the digits to be dropped are 5000...
            let step = 10i128.pow(s - places);
            m = (m / step) * step + step / 2;
        }
        let r = Amount::new(m, s).unwrap().round_dp(places);
        if s <= places {
            assert_eq!((r.mantissa(), r.scale()), (m, s));
        } else {
            assert_eq!(r.scale(), places);
            assert_eq!(r.mantissa(), half_even(m, 10i128.pow(s - places)));
        }
    }
}

#[test]
fn fixed_text_ends_in_its_places() {
    let mut g = Lcg(4);
    for _ in 0..2000 {
        let (m, s) = g.parts();
        let places = 1 + (g.next() % 28) as u32;
        let text = Amount::new(m, s).unwrap().fixed_text(places);
        let chars: Vec<char> = text.chars().collect();
        let n = chars.len();
        let p = places as usize;
        assert!(n > p + 1);
        assert_eq!(chars[n - p - 1], '.');
        assert!(chars[n - p..].iter().all(|c| c.is_ascii_digit()));
        assert!(chars[..n - p - 1]
            .iter()
            .enumerate()
            .all(|(i, c)| c.is_ascii_digit() || (i == 0 && *c == '-')));
    }
}

#[test]
fn texts_have_their_shape_over_the_whole_range() {
    let mut g = Lcg(6);
    for _ in 0..4000 {
        let (m, s) = g.wide_parts();
        let a = Amount::new(m, s).unwrap();
        let text = a.text();
        assert!(!text.is_empty());
        if s == 0 {
            assert!(!text.contains('.'));
        } else {
            let (_, fraction) = text.split_once('.').unwrap();
            assert_eq!(fraction.len(), s as usize);
            assert!(fraction.chars().all(|c| c.is_ascii_digit()));
        }
        let places = (g.next() % 29) as u32;
        let fixed = a.fixed_text(places);
        if places == 0 {
            assert!(!fixed.contains('.'));
        } else {
            let (whole, fraction) = fixed.split_once('.').unwrap();
            assert!(!whole.is_empty());
            assert_eq!(fraction.len(), places as usize);
            assert!(fraction.chars().all(|c| c.is_ascii_digit()));
        }
        let r = a.round_dp(places);
        assert!(fixed.starts_with(&r.text()));
    }
}

#[test]
fn arithmetic_is_consistent_over_the_whole_range() {
    let mut g = Lcg(7);
    let mut exact = 0;
    for _ in 0..4000 {
        let (m1, s1) = g.wide_parts();
        let (m2, s2) = g.wide_parts();
        let a = Amount::new(m1, s1).unwrap();
        let b = Amount::new(m2, s2).unwrap();
        assert!(a.at_least(&b) || b.at_least(&a));
        assert_eq!(a.at_least(&b) && b.at_least(&a), a == b);
        if let Some(d) = a.checked_sub(&b) {
            exact += 1;
            // an exact difference tells the order
            assert_eq!(a.at_least(&b), d.mantissa() >= 0);
            assert_eq!(a == b, d.mantissa() == 0);
            assert_eq!(d.checked_add(&b), Some(a));
        }
        if let Some(s) = a.checked_add(&b) {
            assert_eq!(s.checked_sub(&b), Some(a));
            assert_eq!(b.checked_add(&a), Some(s));
        }
        let places = (g.next() % 29) as u32;
        let r = a.round_dp(places);
        assert!(r.scale() <= places.max(s1));
        if s1 <= places {
            assert_eq!((r.mantissa(), r.scale()), (m1, s1));
        }
    }
    assert!(exact > 100);
}

#[test]
fn row_text_reads_back_as_the_rounded_balances() {
    let mut g = Lcg(5);
    for _ in 0..500 {
        let (m, s) = g.parts();
        let a = Amount::new(m, s).unwrap();
        let text = a.round_dp(4).fixed_text(4);
        let (whole, fraction) = text.split_once('.').unwrap();
        assert_eq!(fraction.len(), 4);
        let negative = whole.starts_with('-');
        let digits = format!("{}{}", whole.trim_start_matches('-'), fraction);
        let mut read = digits.parse::<i128>().unwrap();
        if negative {
            read = -read;
        }
        let r = a.round_dp(4);
        assert_eq!(read, r.mantissa() * 10i128.pow(4 - r.scale()));
    }
}
