//! Numbers as text, and the few operations on text that the extractors need.

use vstd::prelude::*;
use vstd::string::{StrSliceExecFns, StringExecFns};
use vstd::utf8::{decode_utf8, valid_utf8};

verus! {

/// The character of a decimal digit.
pub open spec fn digit(d: nat) -> char {
    if d == 0 {
        '0'
    } else if d == 1 {
        '1'
    } else if d == 2 {
        '2'
    } else if d == 3 {
        '3'
    } else if d == 4 {
        '4'
    } else if d == 5 {
        '5'
    } else if d == 6 {
        '6'
    } else if d == 7 {
        '7'
    } else if d == 8 {
        '8'
    } else {
        '9'
    }
}

/// A number in decimal digits, without leading zeros.
pub open spec fn decimal(n: nat) -> Seq<char>
    decreases n,
{
    if n < 10 {
        seq![digit(n)]
    } else {
        decimal(n / 10).push(digit(n % 10))
    }
}

/// A number in decimal digits, with zeros before it up to `width` digits.
pub open spec fn padded(n: nat, width: nat) -> Seq<char> {
    if decimal(n).len() >= width {
        decimal(n)
    } else {
        Seq::new((width - decimal(n).len()) as nat, |i: int| '0') + decimal(n)
    }
}

fn digit_text(d: u64) -> (text: &'static str)
    requires
        d < 10,
    ensures
        text@ == seq![digit(d as nat)],
{
    proof {
        reveal_strlit("0");
        reveal_strlit("1");
        reveal_strlit("2");
        reveal_strlit("3");
        reveal_strlit("4");
        reveal_strlit("5");
        reveal_strlit("6");
        reveal_strlit("7");
        reveal_strlit("8");
        reveal_strlit("9");
    }
    let text = match d {
        0 => "0",
        1 => "1",
        2 => "2",
        3 => "3",
        4 => "4",
        5 => "5",
        6 => "6",
        7 => "7",
        8 => "8",
        _ => "9",
    };
    assert(text@ =~= seq![digit(d as nat)]);
    text
}

/// The number in decimal digits.
pub fn to_decimal(n: u64) -> (text: String)
    ensures
        text@ == decimal(n as nat),
    decreases n,
{
    if n < 10 {
        String::from_str(digit_text(n))
    } else {
        let mut text = to_decimal(n / 10);
        text.append(digit_text(n % 10));
        assert(text@ =~= decimal((n / 10) as nat).push(digit((n % 10) as nat)));
        text
    }
}

/// The number in decimal digits, with zeros before it up to `width` digits; a
/// number of more digits stands as it is.
pub fn to_padded(n: u64, width: usize) -> (text: String)
    ensures
        text@ == padded(n as nat, width as nat),
{
    let digits = to_decimal(n);
    let count = digits.as_str().unicode_len();
    let mut text = String::new();
    let mut i: usize = count;
    while i < width
        invariant
            count <= i,
            i <= width || count >= width,
            count >= width ==> i == count,
            count == decimal(n as nat).len(),
            text@ == Seq::new((i - count) as nat, |k: int| '0'),
        decreases width - i,
    {
        let ghost before = text@;
        text.append("0");
        assert(text@ =~= Seq::new((i + 1 - count) as nat, |k: int| '0')) by {
            reveal_strlit("0");
            assert("0"@ =~= seq!['0']);
        }
        i += 1;
    }
    let ghost zeros = text@;
    text.append(digits.as_str());
    assert(text@ =~= padded(n as nat, width as nat)) by {
        if count < width {
            assert(i == width);
            assert(zeros =~= Seq::new((width - decimal(n as nat).len()) as nat, |k: int| '0'));
        } else {
            assert(i == count);
            assert(zeros =~= Seq::<char>::empty());
        }
    }
    text
}

/// `str::starts_with` of std with a string as the pattern: whether the text
/// begins with the prefix.
#[verifier::external_body]
pub(crate) fn starts_with(text: &str, prefix: &str) -> (found: bool)
    ensures
        found == prefix@.is_prefix_of(text@),
{
    text.starts_with(prefix)
}

/// `String::from_utf8` of std: the text that the bytes encode, where they are
/// valid UTF-8, and nothing where they are not.
#[verifier::external_body]
pub(crate) fn from_utf8(bytes: Vec<u8>) -> (text: Option<String>)
    ensures
        match text {
            Some(text) => valid_utf8(bytes@) && text@ == decode_utf8(bytes@),
            None => !valid_utf8(bytes@),
        },
{
    String::from_utf8(bytes).ok()
}

/// `str::strip_prefix` of std with a string as the pattern: the text behind
/// the prefix, or nothing where the text does not begin with it.
#[verifier::external_body]
pub(crate) fn strip_prefix<'a>(text: &'a str, prefix: &str) -> (rest: Option<&'a str>)
    ensures
        match rest {
            Some(rest) => prefix@.is_prefix_of(text@) && rest@ == text@.skip(prefix@.len() as int),
            None => !prefix@.is_prefix_of(text@),
        },
{
    text.strip_prefix(prefix)
}

/// A whole number in decimal digits, behind a minus sign where it is
/// negative.
pub open spec fn signed_decimal(i: int) -> Seq<char> {
    if i < 0 {
        "-"@ + decimal((-i) as nat)
    } else {
        decimal(i as nat)
    }
}

/// The whole number in decimal digits: see [`signed_decimal`].
pub fn to_signed_decimal(i: i64) -> (text: String)
    ensures
        text@ == signed_decimal(i as int),
{
    if i < 0 {
        let magnitude: u64 = (-(i + 1)) as u64 + 1;
        let mut text = String::from_str("-");
        text.append(to_decimal(magnitude).as_str());
        text
    } else {
        to_decimal(i as u64)
    }
}

/// What `str::to_lowercase` of std makes of a text.
pub uninterp spec fn lowercase(text: Seq<char>) -> Seq<char>;

/// What `char::to_uppercase` of std makes of a character: one character or
/// several.
pub uninterp spec fn uppercase(c: char) -> Seq<char>;

/// The number that the character of a decimal digit stands for.
pub open spec fn digit_value(c: char) -> Option<nat> {
    if c == '0' {
        Some(0)
    } else if c == '1' {
        Some(1)
    } else if c == '2' {
        Some(2)
    } else if c == '3' {
        Some(3)
    } else if c == '4' {
        Some(4)
    } else if c == '5' {
        Some(5)
    } else if c == '6' {
        Some(6)
    } else if c == '7' {
        Some(7)
    } else if c == '8' {
        Some(8)
    } else if c == '9' {
        Some(9)
    } else {
        None
    }
}

/// The number that a text of decimal digits stands for: nothing where the
/// text is empty or holds anything but digits.
pub open spec fn number(text: Seq<char>) -> Option<nat>
    decreases text.len(),
{
    if text.len() == 0 {
        None
    } else {
        match digit_value(text.last()) {
            None => None,
            Some(d) => if text.len() == 1 {
                Some(d)
            } else {
                match number(text.drop_last()) {
                    Some(n) => Some(10 * n + d),
                    None => None,
                }
            },
        }
    }
}

/// The whole number that a text stands for: decimal digits, behind a plus
/// or a minus sign or none.
pub open spec fn whole_number(text: Seq<char>) -> Option<int> {
    if text.len() > 0 && text[0] == '-' {
        match number(text.skip(1)) {
            Some(n) => Some(-(n as int)),
            None => None,
        }
    } else if text.len() > 0 && text[0] == '+' {
        match number(text.skip(1)) {
            Some(n) => Some(n as int),
            None => None,
        }
    } else {
        match number(text) {
            Some(n) => Some(n as int),
            None => None,
        }
    }
}

/// What `str::parse::<i64>` of std makes of a text: the whole number that it
/// stands for, where that number fits 64 bits.
pub open spec fn parsed_i64(text: Seq<char>) -> Option<i64> {
    match whole_number(text) {
        Some(v) => if i64::MIN <= v <= i64::MAX {
            Some(v as i64)
        } else {
            None
        },
        None => None,
    }
}

/// `str::to_lowercase` of std. The result is named: it follows the Unicode
/// tables that std carries.
#[verifier::external_body]
pub(crate) fn to_lowercase(text: &str) -> (lower: String)
    ensures
        lower@ == lowercase(text@),
{
    text.to_lowercase()
}

/// `char::to_uppercase` of std, collected into a string. The result is named:
/// it follows the Unicode tables that std carries.
#[verifier::external_body]
pub(crate) fn to_uppercase(c: char) -> (upper: String)
    ensures
        upper@ == uppercase(c),
{
    c.to_uppercase().collect()
}

/// `str::parse::<i64>` of std: an optional sign and then digits only, at
/// least one, of a number that fits 64 bits; on anything else it fails.
#[verifier::external_body]
pub(crate) fn parse_i64(text: &str) -> (number: Option<i64>)
    ensures
        number == parsed_i64(text@),
{
    text.parse::<i64>().ok()
}

/// The text with its first character in upper case; the empty text stays
/// empty.
pub open spec fn with_capital(text: Seq<char>) -> Seq<char> {
    if text.len() == 0 {
        Seq::empty()
    } else {
        uppercase(text[0]) + text.skip(1)
    }
}

/// The text in lower case but for its first letter, which stands in upper
/// case.
pub open spec fn capitalized(text: Seq<char>) -> Seq<char> {
    with_capital(lowercase(text))
}

/// The text with its first character put in upper case.
pub fn capitalize(text: &str) -> (capital: String)
    ensures
        capital@ == with_capital(text@),
{
    let count = text.unicode_len();
    if count == 0 {
        String::new()
    } else {
        let first = text.get_char(0);
        let rest = text.substring_char(1, count);
        let mut capital = to_uppercase(first);
        capital.append(rest);
        assert(text@.subrange(1, count as int) =~= text@.skip(1));
        capital
    }
}

/// The text in lower case but for its first letter, which is put in upper
/// case.
pub fn uppercase_first_letter(s: &str) -> (text: String)
    ensures
        text@ == capitalized(s@),
{
    let lowercased = to_lowercase(s);
    capitalize(lowercased.as_str())
}

/// The digits of a number stand for the number, and begin with a digit.
pub proof fn lemma_number_of_decimal(n: nat)
    ensures
        number(decimal(n)) == Some(n),
        decimal(n).len() >= 1,
        digit_value(decimal(n)[0]) is Some,
    decreases n,
{
    if n >= 10 {
        lemma_number_of_decimal(n / 10);
        assert(decimal(n).drop_last() =~= decimal(n / 10));
        assert(decimal(n).last() == digit(n % 10));
        assert(decimal(n)[0] == decimal(n / 10)[0]);
    }
}

/// Parsing reads back a whole number that was written in decimal digits.
pub proof fn lemma_parse_signed_decimal(i: i64)
    ensures
        parsed_i64(signed_decimal(i as int)) == Some(i),
{
    reveal_strlit("-");
    if i < 0 {
        let digits = decimal((-i) as nat);
        lemma_number_of_decimal((-i) as nat);
        assert(signed_decimal(i as int)[0] == '-');
        assert(signed_decimal(i as int).skip(1) =~= digits);
    } else {
        lemma_number_of_decimal(i as nat);
    }
}

} // verus!
