//! Decimal digits of natural numbers, as text.
use vstd::prelude::*;
use vstd::string::StringExecFns;

verus! {

/// The character that writes the digit `d`.
pub open spec fn digit(d: nat) -> char {
    if d == 0 {
        '0'
    } else if d == 1 {
        '1'
    } else if d == 2 {
        '2'
    } else if d == 3 {
        '3'
    } else if d == 4 {
        '4'
    } else if d == 5 {
        '5'
    } else if d == 6 {
        '6'
    } else if d == 7 {
        '7'
    } else if d == 8 {
        '8'
    } else {
        '9'
    }
}

/// The decimal numeral of `n`, without leading zeros.
pub open spec fn decimal(n: nat) -> Seq<char>
    decreases n,
{
    if n < 10 {
        seq![digit(n)]
    } else {
        decimal(n / 10).push(digit(n % 10))
    }
}

/// The last `width` decimal digits of `n`, padded with zeros on the left.
pub open spec fn padded(n: nat, width: nat) -> Seq<char>
    decreases width,
{
    if width == 0 {
        Seq::empty()
    } else {
        padded(n / 10, (width - 1) as nat).push(digit(n % 10))
    }
}

/// Ten to the power `j`.
pub open spec fn pow10(j: nat) -> nat
    decreases j,
{
    if j == 0 {
        1
    } else {
        10 * pow10((j - 1) as nat)
    }
}

/// A numeral in two parts: `whole`, then, where `places` is not zero, a point
/// and the last `places` digits of `fraction`.
pub open spec fn parts_numeral(whole: nat, fraction: nat, places: nat) -> Seq<char> {
    if places == 0 {
        decimal(whole)
    } else {
        decimal(whole) + "."@ + padded(fraction, places)
    }
}

/// The numeral of `scaled / 10^places`, with exactly `places` digits after
/// the point, and no point where `places` is zero.
pub open spec fn point_numeral(scaled: nat, places: nat) -> Seq<char> {
    parts_numeral(scaled / pow10(places), scaled % pow10(places), places)
}

/// `pow10` grows with its argument.
pub proof fn lemma_pow10_grows(i: nat, j: nat)
    requires
        i <= j,
    ensures
        1 <= pow10(i) <= pow10(j),
    decreases j,
{
    if j > 0 {
        if i < j {
            lemma_pow10_grows(i, (j - 1) as nat);
        } else {
            lemma_pow10_grows((i - 1) as nat, (j - 1) as nat);
        }
    }
}

/// The greatest power of ten that the crate works with.
pub proof fn lemma_pow10_most()
    ensures
        pow10(17) == 100_000_000_000_000_000,
{
    reveal_with_fuel(pow10, 18);
}

/// The one-character text of a digit.
pub(crate) fn digit_text(d: u64) -> (text: &'static str)
    requires
        d < 10,
    ensures
        text@ == seq![digit(d as nat)],
{
    proof {
        reveal_strlit("0");
        reveal_strlit("1");
        reveal_strlit("2");
        reveal_strlit("3");
        reveal_strlit("4");
        reveal_strlit("5");
        reveal_strlit("6");
        reveal_strlit("7");
        reveal_strlit("8");
        reveal_strlit("9");
    }
    let text: &'static str = if d == 0 {
        "0"
    } else if d == 1 {
        "1"
    } else if d == 2 {
        "2"
    } else if d == 3 {
        "3"
    } else if d == 4 {
        "4"
    } else if d == 5 {
        "5"
    } else if d == 6 {
        "6"
    } else if d == 7 {
        "7"
    } else if d == 8 {
        "8"
    } else {
        "9"
    };
    assert(text@ =~= seq![digit(d as nat)]);
    text
}

/// Appends the decimal numeral of `n` to `out`.
pub fn push_decimal(out: &mut String, n: u64)
    ensures
        final(out)@ == old(out)@ + decimal(n as nat),
    decreases n,
{
    if n >= 10 {
        push_decimal(out, n / 10);
    }
    out.append(digit_text(n % 10));
    proof {
        if n >= 10 {
            assert(old(out)@ + decimal((n / 10) as nat) + seq![digit((n % 10) as nat)] =~= old(
                out,
            )@ + decimal(n as nat));
        }
    }
}

/// Appends the last `width` digits of `n` to `out`, zero-padded.
pub fn push_padded(out: &mut String, n: u64, width: u32)
    ensures
        final(out)@ == old(out)@ + padded(n as nat, width as nat),
    decreases width,
{
    if width > 0 {
        push_padded(out, n / 10, width - 1);
        out.append(digit_text(n % 10));
        assert(old(out)@ + padded((n / 10) as nat, (width - 1) as nat) + seq![
            digit((n % 10) as nat),
        ] =~= old(out)@ + padded(n as nat, width as nat));
    } else {
        assert(old(out)@ + padded(n as nat, 0) =~= old(out)@);
    }
}

/// Appends `parts_numeral(whole, fraction, places)` to `out`.
pub fn push_parts(out: &mut String, whole: u64, fraction: u64, places: u32)
    ensures
        final(out)@ == old(out)@ + parts_numeral(whole as nat, fraction as nat, places as nat),
{
    push_decimal(out, whole);
    if places > 0 {
        out.append(".");
        push_padded(out, fraction, places);
        assert(old(out)@ + decimal(whole as nat) + "."@ + padded(fraction as nat, places as nat)
            =~= old(out)@ + (decimal(whole as nat) + "."@ + padded(
            fraction as nat,
            places as nat,
        )));
    }
}

} // verus!
