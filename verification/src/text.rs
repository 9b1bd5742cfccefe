//! Text: numbers in decimal, and the rendering of a list of names.

use vstd::prelude::*;

verus! {

/// The character for a decimal digit.
pub open spec fn digit_char(digit: int) -> char {
    if digit == 0 {
        '0'
    } else if digit == 1 {
        '1'
    } else if digit == 2 {
        '2'
    } else if digit == 3 {
        '3'
    } else if digit == 4 {
        '4'
    } else if digit == 5 {
        '5'
    } else if digit == 6 {
        '6'
    } else if digit == 7 {
        '7'
    } else if digit == 8 {
        '8'
    } else {
        '9'
    }
}

/// A number in decimal, without leading zeros.
pub open spec fn decimal(number: nat) -> Seq<char>
    decreases number,
{
    if number < 10 {
        seq![digit_char(number as int)]
    } else {
        decimal(number / 10).push(digit_char((number % 10) as int))
    }
}

fn digit_text(digit: usize) -> (text: &'static str)
    requires
        digit < 10,
    ensures
        text@ == seq![digit_char(digit as int)],
{
    proof {
        reveal_strlit("0");
        reveal_strlit("1");
        reveal_strlit("2");
        reveal_strlit("3");
        reveal_strlit("4");
        reveal_strlit("5");
        reveal_strlit("6");
        reveal_strlit("7");
        reveal_strlit("8");
        reveal_strlit("9");
    }
    let text = if digit == 0 {
        "0"
    } else if digit == 1 {
        "1"
    } else if digit == 2 {
        "2"
    } else if digit == 3 {
        "3"
    } else if digit == 4 {
        "4"
    } else if digit == 5 {
        "5"
    } else if digit == 6 {
        "6"
    } else if digit == 7 {
        "7"
    } else if digit == 8 {
        "8"
    } else {
        "9"
    };
    assert(text@ =~= seq![digit_char(digit as int)]);
    text
}

/// Writes a number in decimal.
pub fn decimal_text(number: usize) -> (text: String)
    ensures
        text@ == decimal(number as nat),
    decreases number,
{
    if number < 10 {
        digit_text(number).to_owned()
    } else {
        let mut text = decimal_text(number / 10);
        text.append(digit_text(number % 10));
        text
    }
}

/// A decimal number has at least one digit, and its first digit is zero
/// only if the number is zero.
pub proof fn lemma_decimal_shape(number: nat)
    ensures
        decimal(number).len() >= 1,
        decimal(number)[0] == '0' ==> number == 0,
    decreases number,
{
    if number >= 10 {
        lemma_decimal_shape(number / 10);
    }
}

/// What `{:?}` writes for a list of names. It depends on the names alone.
pub uninterp spec fn debug_list(names: Seq<Seq<char>>) -> Seq<char>;

/// Renders a list of names as the standard library's `Debug` does for a
/// `Vec<String>`, by `format!("{:?}", ..)`: the names in quotes, escaped
/// where need be, between square brackets and with commas between them. The
/// text is a function of the names; the contract gives it a name and says
/// no more of it.
#[verifier::external_body]
pub(crate) fn debug_names(names: &Vec<String>) -> (text: String)
    ensures
        text@ == debug_list(names.deep_view()),
{
    format!("{:?}", names)
}

} // verus!
