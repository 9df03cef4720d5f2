//! Amounts of money: exact decimals with up to 28 fractional digits.

use crate::decimal;
use crate::decimal::{
    decimal_difference, decimal_sum, decimal_text, ends_in_places, rounded_mantissa, shaped,
};
use crate::exact::{adds_up, representable, units, MAX_MANTISSA, MAX_SCALE};
use vstd::prelude::*;
use vstd::std_specs::cmp::PartialEqSpecImpl;
use vstd::string::*;

verus! {

/// What an amount is made of: it stands for `mantissa / 10^scale`.
pub struct Parts {
    pub mantissa: int,
    pub scale: nat,
}

impl Parts {
    /// The parts of zero.
    pub open spec fn zero() -> Parts {
        Parts { mantissa: 0, scale: 0 }
    }

    /// Whether a decimal can hold these parts.
    pub open spec fn representable(self) -> bool {
        representable(self.mantissa, self.scale)
    }

    /// The value, counted in units of `10^-28`.
    pub open spec fn units(self) -> int {
        units(self.mantissa, self.scale)
    }

    /// The sum of two amounts: the decimal library's answer where that is a
    /// decimal of exactly the value `self + other`, and nothing otherwise.
    pub open spec fn plus(self, other: Parts) -> Option<Parts> {
        confirmed_sum(
            self,
            other,
            as_parts(decimal_sum(self.mantissa, self.scale, other.mantissa, other.scale)),
        )
    }

    /// The difference of two amounts: the decimal library's answer where that
    /// is a decimal of exactly the value `self - other`, and nothing otherwise.
    pub open spec fn minus(self, other: Parts) -> Option<Parts> {
        confirmed_difference(
            self,
            other,
            as_parts(decimal_difference(self.mantissa, self.scale, other.mantissa, other.scale)),
        )
    }

    /// The amount rounded to at most `places` fractional digits, a tie going
    /// to the even neighbour.
    pub open spec fn rounded(self, places: nat) -> Parts {
        Parts {
            mantissa: rounded_mantissa(self.mantissa, self.scale, places),
            scale: if self.scale <= places { self.scale } else { places },
        }
    }

    /// The amount as text, with the fractional digits that its scale gives it.
    pub open spec fn text(self) -> Seq<char> {
        decimal_text(self.mantissa, self.scale)
    }

    /// The amount as text, filled up with zeros to `places` fractional
    /// digits. It is meant for an amount that has no more than that.
    pub open spec fn padded_text(self, places: nat) -> Seq<char> {
        self.text() + point_if(self.scale == 0 && places > 0) + zeros(
            (places - self.scale) as nat,
        )
    }

    /// The amount as text with exactly `places` fractional digits, after
    /// rounding to that many.
    pub open spec fn fixed_text(self, places: nat) -> Seq<char> {
        self.rounded(places).padded_text(places)
    }
}

/// A decimal point, or nothing.
pub open spec fn point_if(wanted: bool) -> Seq<char> {
    if wanted {
        seq!['.']
    } else {
        Seq::empty()
    }
}

/// `n` zeros.
pub open spec fn zeros(n: nat) -> Seq<char> {
    Seq::new(n, |i: int| '0')
}

/// An answer of the decimal library, as parts.
pub open spec fn as_parts(answer: Option<(int, nat)>) -> Option<Parts> {
    match answer {
        Some(p) => Some(Parts { mantissa: p.0, scale: p.1 }),
        None => None,
    }
}

/// `answer`, where it is a decimal whose value is exactly `a + b`.
pub open spec fn confirmed_sum(a: Parts, b: Parts, answer: Option<Parts>) -> Option<Parts> {
    match answer {
        Some(s) => if s.representable() && s.units() == a.units() + b.units() {
            Some(s)
        } else {
            None
        },
        None => None,
    }
}

/// `answer`, where it is a decimal whose value is exactly `a - b`.
pub open spec fn confirmed_difference(a: Parts, b: Parts, answer: Option<Parts>) -> Option<Parts> {
    match answer {
        Some(d) => if d.representable() && d.units() == a.units() - b.units() {
            Some(d)
        } else {
            None
        },
        None => None,
    }
}

/// The parts of an optional amount.
pub open spec fn parts_of(amount: Option<Amount>) -> Option<Parts> {
    match amount {
        Some(a) => Some(a@),
        None => None,
    }
}

/// An exact decimal amount. Its mantissa is within 96 bits and its scale is
/// at most 28, so that the decimal library can hold it.
#[derive(Clone, Copy, Debug)]
pub struct Amount {
    mantissa: i128,
    scale: u32,
}

impl View for Amount {
    type V = Parts;

    closed spec fn view(&self) -> Parts {
        Parts { mantissa: self.mantissa as int, scale: self.scale as nat }
    }
}

impl Amount {
    #[verifier::type_invariant]
    spec fn within_limits(self) -> bool {
        representable(self.mantissa as int, self.scale as nat)
    }

    /// An amount from its parts, where a decimal can hold them.
    pub fn new(mantissa: i128, scale: u32) -> (r: Option<Amount>)
        ensures
            match r {
                Some(a) => a@ == (Parts { mantissa: mantissa as int, scale: scale as nat })
                    && a@.representable(),
                None => !representable(mantissa as int, scale as nat),
            },
    {
        if -MAX_MANTISSA <= mantissa && mantissa <= MAX_MANTISSA && scale <= MAX_SCALE {
            Some(Amount { mantissa, scale })
        } else {
            None
        }
    }

    /// Zero, with no fractional digits.
    pub fn zero() -> (r: Amount)
        ensures
            r@ == Parts::zero(),
    {
        Amount { mantissa: 0, scale: 0 }
    }

    /// The mantissa.
    pub fn mantissa(&self) -> (m: i128)
        ensures
            m == self@.mantissa,
            self@.representable(),
    {
        proof {
            use_type_invariant(self);
        }
        self.mantissa
    }

    /// The scale: the number of fractional digits.
    pub fn scale(&self) -> (s: u32)
        ensures
            s == self@.scale,
            self@.representable(),
    {
        proof {
            use_type_invariant(self);
        }
        self.scale
    }

    /// Keeps the decimal library's answer to `a + b` where it is exact.
    pub fn confirm_sum(a: Amount, b: Amount, answer: Option<Amount>) -> (r: Option<Amount>)
        ensures
            parts_of(r) == confirmed_sum(a@, b@, parts_of(answer)),
            r is Some ==> r == answer,
    {
        proof {
            use_type_invariant(&a);
            use_type_invariant(&b);
        }
        match answer {
            Some(s) => {
                proof {
                    use_type_invariant(&s);
                }
                if adds_up((a.mantissa, a.scale), (b.mantissa, b.scale), (s.mantissa, s.scale)) {
                    Some(s)
                } else {
                    None
                }
            },
            None => None,
        }
    }

    /// Keeps the decimal library's answer to `a - b` where it is exact.
    pub fn confirm_difference(a: Amount, b: Amount, answer: Option<Amount>) -> (r: Option<Amount>)
        ensures
            parts_of(r) == confirmed_difference(a@, b@, parts_of(answer)),
            r is Some ==> r == answer,
    {
        proof {
            use_type_invariant(&a);
            use_type_invariant(&b);
        }
        match answer {
            Some(d) => {
                proof {
                    use_type_invariant(&d);
                }
                if adds_up((d.mantissa, d.scale), (b.mantissa, b.scale), (a.mantissa, a.scale)) {
                    Some(d)
                } else {
                    None
                }
            },
            None => None,
        }
    }

    /// `self + other`, or nothing where the decimal library has no exact
    /// answer.
    pub fn checked_add(&self, other: &Amount) -> (r: Option<Amount>)
        ensures
            parts_of(r) == self@.plus(other@),
            r matches Some(s) ==> s@.units() == self@.units() + other@.units(),
    {
        proof {
            use_type_invariant(self);
            use_type_invariant(other);
        }
        let answer = match decimal::checked_add(
            self.mantissa,
            self.scale,
            other.mantissa,
            other.scale,
        ) {
            Some(p) => Some(Amount { mantissa: p.0, scale: p.1 }),
            None => None,
        };
        Amount::confirm_sum(*self, *other, answer)
    }

    /// `self - other`, or nothing where the decimal library has no exact
    /// answer.
    pub fn checked_sub(&self, other: &Amount) -> (r: Option<Amount>)
        ensures
            parts_of(r) == self@.minus(other@),
            r matches Some(d) ==> d@.units() == self@.units() - other@.units(),
    {
        proof {
            use_type_invariant(self);
            use_type_invariant(other);
        }
        let answer = match decimal::checked_sub(
            self.mantissa,
            self.scale,
            other.mantissa,
            other.scale,
        ) {
            Some(p) => Some(Amount { mantissa: p.0, scale: p.1 }),
            None => None,
        };
        Amount::confirm_difference(*self, *other, answer)
    }

    /// Whether `self` is worth at least as much as `other`.
    pub fn at_least(&self, other: &Amount) -> (r: bool)
        ensures
            r == (self@.units() >= other@.units()),
    {
        proof {
            use_type_invariant(self);
            use_type_invariant(other);
        }
        decimal::at_least(self.mantissa, self.scale, other.mantissa, other.scale)
    }

    /// The amount rounded to at most `places` fractional digits.
    pub fn round_dp(&self, places: u32) -> (r: Amount)
        ensures
            r@ == self@.rounded(places as nat),
    {
        proof {
            use_type_invariant(self);
        }
        let p = decimal::round_dp(self.mantissa, self.scale, places);
        Amount { mantissa: p.0, scale: p.1 }
    }

    /// The amount as text, with the fractional digits that its scale gives it.
    pub fn text(&self) -> (r: String)
        ensures
            r@ == self@.text(),
            shaped(r@, self@.scale),
    {
        proof {
            use_type_invariant(self);
        }
        decimal::text(self.mantissa, self.scale)
    }

    /// The amount as text with exactly `places` fractional digits: it is
    /// rounded to that many, and filled up with zeros where it has fewer.
    pub fn fixed_text(&self, places: u32) -> (r: String)
        requires
            places <= MAX_SCALE,
        ensures
            r@ == self@.fixed_text(places as nat),
            places >= 1 ==> ends_in_places(r@, places as nat),
    {
        let rounded = self.round_dp(places);
        let scale = rounded.scale();
        let mut r = rounded.text();
        let ghost plain = r@;
        proof {
            reveal_strlit(".");
            reveal_strlit("0");
        }
        if scale == 0 && places > 0 {
            r.append(".");
        }
        let ghost start = r@;
        let mut added: u32 = 0;
        while added < places - scale
            invariant
                scale <= places,
                added <= places - scale,
                r@ == start + zeros(added as nat),
                "0"@ == seq!['0'],
            decreases places - scale - added,
        {
            r.append("0");
            added = added + 1;
            assert(r@ =~= start + zeros(added as nat));
        }
        proof {
            assert(start =~= plain + point_if(scale == 0 && places > 0));
            assert(r@ =~= rounded@.padded_text(places as nat));
        }
        r
    }
}

impl PartialEq for Amount {
    /// Two amounts are equal when their values are, whatever their scales.
    fn eq(&self, other: &Amount) -> (r: bool) {
        proof {
            use_type_invariant(self);
            use_type_invariant(other);
        }
        decimal::same_value(self.mantissa, self.scale, other.mantissa, other.scale)
    }
}

impl PartialEqSpecImpl for Amount {
    open spec fn obeys_eq_spec() -> bool {
        true
    }

    open spec fn eq_spec(&self, other: &Amount) -> bool {
        self@.units() == other@.units()
    }
}

} // verus!
