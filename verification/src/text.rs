//! Facts about texts: where one occurs in another, and which hold no escape
//! character.
use crate::decimal::{decimal, digit, padded, parts_numeral, point_numeral, pow10};
use vstd::prelude::*;

verus! {

/// Whether `needle` stands somewhere in `hay`, unbroken.
pub open spec fn occurs_in(needle: Seq<char>, hay: Seq<char>) -> bool {
    exists|at: int|
        0 <= at && at + needle.len() <= hay.len() && #[trigger] hay.subrange(
            at,
            at + needle.len(),
        ) == needle
}

/// Whether `text` holds no escape character.
pub open spec fn escape_free(text: Seq<char>) -> bool {
    forall|i: int| 0 <= i < text.len() ==> text[i] != '\x1B'
}

/// A text occurs in itself.
pub proof fn lemma_occurs_in_itself(text: Seq<char>)
    ensures
        occurs_in(text, text),
{
    assert(text.subrange(0, 0 + text.len() as int) =~= text);
}

/// A text that occurs in `middle` occurs in whatever `middle` is part of.
pub proof fn lemma_occurs_within(
    needle: Seq<char>,
    before: Seq<char>,
    middle: Seq<char>,
    after: Seq<char>,
)
    requires
        occurs_in(needle, middle),
    ensures
        occurs_in(needle, before + middle + after),
{
    let at = choose|at: int|
        0 <= at && at + needle.len() <= middle.len() && #[trigger] middle.subrange(
            at,
            at + needle.len(),
        ) == needle;
    let whole = before + middle + after;
    let shifted = before.len() + at;
    assert(whole.subrange(shifted, shifted + needle.len()) =~= middle.subrange(
        at,
        at + needle.len(),
    ));
}

/// Two escape-free texts, joined, are escape-free.
pub proof fn lemma_escape_free_joined(left: Seq<char>, right: Seq<char>)
    requires
        escape_free(left),
        escape_free(right),
    ensures
        escape_free(left + right),
{
    assert forall|i: int| 0 <= i < (left + right).len() implies (left + right)[i] != '\x1B' by {
        if i < left.len() {
            assert((left + right)[i] == left[i]);
        } else {
            assert((left + right)[i] == right[i - left.len()]);
        }
    }
}

/// A numeral is escape-free.
pub proof fn lemma_decimal_escape_free(n: nat)
    ensures
        escape_free(decimal(n)),
    decreases n,
{
    if n >= 10 {
        lemma_decimal_escape_free(n / 10);
        assert(decimal(n) =~= decimal(n / 10) + seq![digit(n % 10)]);
        lemma_escape_free_joined(decimal(n / 10), seq![digit(n % 10)]);
    }
}

/// A text that occurs in `left` occurs in `left + right`.
pub proof fn lemma_occurs_in_left(needle: Seq<char>, left: Seq<char>, right: Seq<char>)
    requires
        occurs_in(needle, left),
    ensures
        occurs_in(needle, left + right),
{
    lemma_occurs_within(needle, Seq::empty(), left, right);
    assert(Seq::empty() + left + right =~= left + right);
}

/// A text that occurs in `right` occurs in `left + right`.
pub proof fn lemma_occurs_in_right(needle: Seq<char>, left: Seq<char>, right: Seq<char>)
    requires
        occurs_in(needle, right),
    ensures
        occurs_in(needle, left + right),
{
    lemma_occurs_within(needle, left, right, Seq::empty());
    assert(left + right + Seq::empty() =~= left + right);
}

/// Zero-padded digits are escape-free.
pub proof fn lemma_padded_escape_free(n: nat, width: nat)
    ensures
        escape_free(padded(n, width)),
    decreases width,
{
    if width > 0 {
        lemma_padded_escape_free(n / 10, (width - 1) as nat);
        assert(padded(n, width) =~= padded(n / 10, (width - 1) as nat) + seq![digit(n % 10)]);
        lemma_escape_free_joined(padded(n / 10, (width - 1) as nat), seq![digit(n % 10)]);
    }
}

/// A numeral with a point is escape-free.
pub proof fn lemma_point_numeral_escape_free(scaled: nat, places: nat)
    ensures
        escape_free(point_numeral(scaled, places)),
{
    let whole = scaled / pow10(places);
    let fraction = scaled % pow10(places);
    lemma_decimal_escape_free(whole);
    if places > 0 {
        reveal_strlit(".");
        lemma_padded_escape_free(fraction, places);
        lemma_escape_free_joined(decimal(whole), "."@);
        lemma_escape_free_joined(decimal(whole) + "."@, padded(fraction, places));
    }
    assert(point_numeral(scaled, places) == parts_numeral(whole, fraction, places));
}

} // verus!
