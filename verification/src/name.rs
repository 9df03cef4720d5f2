//! The names of the transaction kinds, as they stand in a field of an input
//! record: `deposit`, `withdrawal`, `dispute`, `resolve`, `chargeback`, in
//! upper or lower case, with blanks before or after.

use crate::transaction::TransType;
use vstd::prelude::*;
use vstd::string::*;

verus! {

/// Whether a byte is a blank: space, tab, line feed, form feed or carriage
/// return.
pub open spec fn is_blank(b: u8) -> bool {
    b == 0x20 || b == 0x09 || b == 0x0a || b == 0x0c || b == 0x0d
}

/// The lower-case form of an ASCII letter; any other byte as it is.
pub open spec fn lowered(b: u8) -> u8 {
    if 0x41 <= b <= 0x5a {
        (b + 0x20) as u8
    } else {
        b
    }
}

/// A field without the blanks at its two ends.
pub open spec fn trimmed(field: Seq<u8>) -> Seq<u8>
    decreases field.len(),
{
    if field.len() > 0 && is_blank(field.first()) {
        trimmed(field.drop_first())
    } else if field.len() > 0 && is_blank(field.last()) {
        trimmed(field.drop_last())
    } else {
        field
    }
}

/// Whether `field`, without its outer blanks and in lower case, reads `word`.
pub open spec fn reads(field: Seq<u8>, word: Seq<char>) -> bool {
    trimmed(field).map_values(|b: u8| lowered(b) as char) == word
}

/// The kind that a field names, if it names one.
pub open spec fn kind_named(field: Seq<u8>) -> Option<TransType> {
    if reads(field, "deposit"@) {
        Some(TransType::Deposit)
    } else if reads(field, "withdrawal"@) {
        Some(TransType::Withdrawal)
    } else if reads(field, "dispute"@) {
        Some(TransType::Dispute)
    } else if reads(field, "resolve"@) {
        Some(TransType::Resolve)
    } else if reads(field, "chargeback"@) {
        Some(TransType::Chargeback)
    } else {
        None
    }
}

/// A field whose blanks are exactly those before `from` and those from `to`
/// on is trimmed to what lies between.
proof fn lemma_trimmed_is_middle(field: Seq<u8>, from: int, to: int)
    requires
        0 <= from <= to <= field.len(),
        forall|i: int| 0 <= i < from ==> is_blank(#[trigger] field[i]),
        forall|i: int| to <= i < field.len() ==> is_blank(#[trigger] field[i]),
        from < to ==> !is_blank(field[from]) && !is_blank(field[to - 1]),
    ensures
        trimmed(field) == field.subrange(from, to),
    decreases field.len(),
{
    if field.len() > 0 && is_blank(field.first()) {
        if from == 0 {
            // Nothing but blanks: the middle is empty wherever it is cut.
            assert(from == to);
            lemma_trimmed_is_middle(field.drop_first(), 0, 0);
            assert(field.drop_first().subrange(0, 0) =~= field.subrange(from, to));
        } else {
            lemma_trimmed_is_middle(field.drop_first(), from - 1, to - 1);
            assert(field.drop_first().subrange(from - 1, to - 1) =~= field.subrange(from, to));
        }
    } else if field.len() > 0 && is_blank(field.last()) {
        assert(from == 0);
        if to == field.len() {
            assert(from == to);
            assert(false);
        }
        lemma_trimmed_is_middle(field.drop_last(), from, to);
        assert(field.drop_last().subrange(from, to) =~= field.subrange(from, to));
    } else {
        assert(from == 0);
        assert(to == field.len());
        assert(field.subrange(from, to) =~= field);
    }
}

fn blank(b: u8) -> (r: bool)
    ensures
        r == is_blank(b),
{
    b == 0x20 || b == 0x09 || b == 0x0a || b == 0x0c || b == 0x0d
}

fn lower(b: u8) -> (r: u8)
    ensures
        r == lowered(b),
{
    if 0x41 <= b && b <= 0x5a {
        b + 0x20
    } else {
        b
    }
}

/// Whether the bytes of `field` from `from` up to `to` read `word` when
/// taken in lower case.
fn middle_reads(field: &[u8], from: usize, to: usize, word: &str) -> (r: bool)
    requires
        from <= to <= field@.len(),
        is_ascii(word),
    ensures
        r == (field@.subrange(from as int, to as int).map_values(|b: u8| lowered(b) as char)
            == word@),
{
    broadcast use is_ascii_spec_bytes;

    let letters = word.as_bytes();
    let ghost middle = field@.subrange(from as int, to as int).map_values(
        |b: u8| lowered(b) as char,
    );
    if letters.len() != to - from {
        return false;
    }
    let mut i: usize = 0;
    while i < letters.len()
        invariant
            from <= to <= field@.len(),
            letters@.len() == to - from,
            letters@ == word.spec_bytes(),
            is_ascii(word),
            word@.len() == letters@.len(),
            middle == field@.subrange(from as int, to as int).map_values(
                |b: u8| lowered(b) as char,
            ),
            0 <= i <= letters@.len(),
            forall|j: int| 0 <= j < i ==> middle[j] == word@[j],
        decreases letters@.len() - i,
    {
        if lower(field[from + i]) != letters[i] {
            assert(middle[i as int] != word@[i as int]);
            return false;
        }
        i = i + 1;
    }
    assert(middle =~= word@);
    true
}

impl TransType {
    /// The kind that a field of an input record names. Blanks around the
    /// name and the case of its letters do not matter.
    pub fn from_name(field: &[u8]) -> (r: Option<TransType>)
        ensures
            r == kind_named(field@),
    {
        let mut from: usize = 0;
        while from < field.len() && blank(field[from])
            invariant
                0 <= from <= field@.len(),
                forall|i: int| 0 <= i < from ==> is_blank(#[trigger] field@[i]),
            decreases field@.len() - from,
        {
            from = from + 1;
        }
        let mut to: usize = field.len();
        while to > from && blank(field[to - 1])
            invariant
                from <= to <= field@.len(),
                forall|i: int| to <= i < field@.len() ==> is_blank(#[trigger] field@[i]),
            decreases to,
        {
            to = to - 1;
        }
        proof {
            lemma_trimmed_is_middle(field@, from as int, to as int);
            reveal_strlit("deposit");
            reveal_strlit("withdrawal");
            reveal_strlit("dispute");
            reveal_strlit("resolve");
            reveal_strlit("chargeback");
        }
        if middle_reads(field, from, to, "deposit") {
            Some(TransType::Deposit)
        } else if middle_reads(field, from, to, "withdrawal") {
            Some(TransType::Withdrawal)
        } else if middle_reads(field, from, to, "dispute") {
            Some(TransType::Dispute)
        } else if middle_reads(field, from, to, "resolve") {
            Some(TransType::Resolve)
        } else if middle_reads(field, from, to, "chargeback") {
            Some(TransType::Chargeback)
        } else {
            None
        }
    }
}

} // verus!
