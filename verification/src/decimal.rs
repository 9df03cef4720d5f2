//! The calls into `rust_decimal`.
//!
//! Every function here builds a `rust_decimal::Decimal` from the parts of
//! each argument (`Decimal::from_i128_with_scale`, which panics on parts that
//! no decimal can hold: hence the `requires`), makes one call, and hands back
//! the parts of the answer (`Decimal::mantissa`, `Decimal::scale`). Their
//! contracts are believed, not proved.
//!
//! Sums and differences are only given a name. The decimal library rounds
//! where a result needs more digits than it has, so nothing is claimed about
//! the value of an answer: whether it is exact is decided afterwards, in
//! verified code, by `exact::adds_up`.

use crate::exact::{pow10, representable, units};
use rust_decimal::Decimal;
use vstd::prelude::*;

verus! {

/// What `Decimal::checked_add` answers for two decimals given by their
/// parts: the parts of the answer, or nothing.
pub uninterp spec fn decimal_sum(m1: int, s1: nat, m2: int, s2: nat) -> Option<(int, nat)>;

/// What `Decimal::checked_sub` answers for two decimals given by their
/// parts: the parts of the answer, or nothing.
pub uninterp spec fn decimal_difference(m1: int, s1: nat, m2: int, s2: nat) -> Option<(int, nat)>;

/// The text that `Display` gives a decimal.
pub uninterp spec fn decimal_text(mantissa: int, scale: nat) -> Seq<char>;

/// Whether `text` has one point, something before it, and exactly `places`
/// digits behind it.
pub open spec fn ends_in_places(text: Seq<char>, places: nat) -> bool {
    &&& text.len() > places + 1
    &&& text[text.len() - places - 1] == '.'
    &&& forall|i: int| text.len() - places <= i < text.len() ==> '0' <= #[trigger] text[i] <= '9'
    &&& forall|i: int| 0 <= i < text.len() - places - 1 ==> #[trigger] text[i] != '.'
}

/// Whether `text` has the shape of a decimal with `scale` fractional digits:
/// for a scale of zero it is not empty and has no point; for a scale of one
/// or more it ends in a point and that many digits.
pub open spec fn shaped(text: Seq<char>, scale: nat) -> bool {
    if scale == 0 {
        text.len() >= 1 && forall|i: int| 0 <= i < text.len() ==> #[trigger] text[i] != '.'
    } else {
        ends_in_places(text, scale)
    }
}

/// The integer nearest to `mantissa / step`; of two equally near, the even one.
pub open spec fn round_half_even(mantissa: int, step: int) -> int {
    let below = mantissa / step;
    let rest = mantissa % step;
    if 2 * rest < step || (2 * rest == step && below % 2 == 0) {
        below
    } else {
        below + 1
    }
}

/// The mantissa that a decimal has after rounding to `places` fractional
/// digits: unchanged where it has no more than that.
pub open spec fn rounded_mantissa(mantissa: int, scale: nat, places: nat) -> int {
    if scale <= places {
        mantissa
    } else {
        round_half_even(mantissa, pow10((scale - places) as nat))
    }
}

/// `Decimal::checked_add`. The answer is a decimal again, and it is the one
/// that `decimal_sum` names; nothing is claimed about its value.
#[verifier::external_body]
pub(crate) fn checked_add(m1: i128, s1: u32, m2: i128, s2: u32) -> (r: Option<(i128, u32)>)
    requires
        representable(m1 as int, s1 as nat),
        representable(m2 as int, s2 as nat),
    ensures
        match r {
            Some(p) => representable(p.0 as int, p.1 as nat) && decimal_sum(
                m1 as int,
                s1 as nat,
                m2 as int,
                s2 as nat,
            ) == Some((p.0 as int, p.1 as nat)),
            None => decimal_sum(m1 as int, s1 as nat, m2 as int, s2 as nat) is None,
        },
{
    let a = Decimal::from_i128_with_scale(m1, s1);
    let b = Decimal::from_i128_with_scale(m2, s2);
    match a.checked_add(b) {
        Some(d) => Some((d.mantissa(), d.scale())),
        None => None,
    }
}

/// `Decimal::checked_sub`. The answer is a decimal again, and it is the one
/// that `decimal_difference` names; nothing is claimed about its value.
#[verifier::external_body]
pub(crate) fn checked_sub(m1: i128, s1: u32, m2: i128, s2: u32) -> (r: Option<(i128, u32)>)
    requires
        representable(m1 as int, s1 as nat),
        representable(m2 as int, s2 as nat),
    ensures
        match r {
            Some(p) => representable(p.0 as int, p.1 as nat) && decimal_difference(
                m1 as int,
                s1 as nat,
                m2 as int,
                s2 as nat,
            ) == Some((p.0 as int, p.1 as nat)),
            None => decimal_difference(m1 as int, s1 as nat, m2 as int, s2 as nat) is None,
        },
{
    let a = Decimal::from_i128_with_scale(m1, s1);
    let b = Decimal::from_i128_with_scale(m2, s2);
    match a.checked_sub(b) {
        Some(d) => Some((d.mantissa(), d.scale())),
        None => None,
    }
}

/// `>=` on `Decimal` (`PartialOrd::ge`): it orders decimals by their value,
/// whatever their scales.
#[verifier::external_body]
pub(crate) fn at_least(m1: i128, s1: u32, m2: i128, s2: u32) -> (r: bool)
    requires
        representable(m1 as int, s1 as nat),
        representable(m2 as int, s2 as nat),
    ensures
        r == (units(m1 as int, s1 as nat) >= units(m2 as int, s2 as nat)),
{
    Decimal::from_i128_with_scale(m1, s1) >= Decimal::from_i128_with_scale(m2, s2)
}

/// `==` on `Decimal` (`PartialEq::eq`): two decimals are equal when their
/// values are, whatever their scales.
#[verifier::external_body]
pub(crate) fn same_value(m1: i128, s1: u32, m2: i128, s2: u32) -> (r: bool)
    requires
        representable(m1 as int, s1 as nat),
        representable(m2 as int, s2 as nat),
    ensures
        r == (units(m1 as int, s1 as nat) == units(m2 as int, s2 as nat)),
{
    Decimal::from_i128_with_scale(m1, s1) == Decimal::from_i128_with_scale(m2, s2)
}

/// `Decimal::round_dp`. A decimal with at most `places` fractional digits
/// comes back as it is. Any other comes back with exactly `places` of them,
/// rounded to the nearest, a tie going to the even neighbour.
#[verifier::external_body]
pub(crate) fn round_dp(mantissa: i128, scale: u32, places: u32) -> (r: (i128, u32))
    requires
        representable(mantissa as int, scale as nat),
    ensures
        representable(r.0 as int, r.1 as nat),
        r.0 == rounded_mantissa(mantissa as int, scale as nat, places as nat),
        r.1 == if scale <= places { scale } else { places },
{
    let d = Decimal::from_i128_with_scale(mantissa, scale).round_dp(places);
    (d.mantissa(), d.scale())
}

/// `Display::fmt` for `Decimal`, without width or precision. The text is
/// the one that `decimal_text` names. It is never empty; a decimal with a
/// scale of zero is written without a point, any other with one point and as
/// many digits behind it as its scale says.
#[verifier::external_body]
pub(crate) fn text(mantissa: i128, scale: u32) -> (r: String)
    requires
        representable(mantissa as int, scale as nat),
    ensures
        r@ == decimal_text(mantissa as int, scale as nat),
        shaped(r@, scale as nat),
{
    format!("{}", Decimal::from_i128_with_scale(mantissa, scale))
}

} // verus!
