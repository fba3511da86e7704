//! Numbers and names as text.
use vstd::prelude::*;

verus! {

/// Whether `c` is one of the ten decimal digits.
pub open spec fn is_digit(c: char) -> bool {
    '0' <= c && c <= '9'
}

/// The number that a row of decimal digits writes, most significant first.
pub open spec fn digits_value(digits: Seq<char>) -> nat
    decreases digits.len(),
{
    if digits.len() == 0 {
        0
    } else {
        10 * digits_value(digits.drop_last()) + (digits.last() as nat - '0' as nat) as nat
    }
}

/// Whether `text` is a row of decimal digits, at least one.
pub open spec fn is_digits(text: Seq<char>) -> bool {
    text.len() > 0 && forall|i: int| 0 <= i < text.len() ==> is_digit(#[trigger] text[i])
}

/// `text` without the `+` that it may start with.
pub open spec fn without_plus(text: Seq<char>) -> Seq<char> {
    if text.len() > 0 && text[0] == '+' {
        text.skip(1)
    } else {
        text
    }
}

/// The number that `text` writes, where it writes one that is at most `max`:
/// an optional `+`, then digits and nothing else.
pub open spec fn parsed_number(text: Seq<char>, max: nat) -> Option<nat> {
    let digits = without_plus(text);
    if is_digits(digits) && digits_value(digits) <= max {
        Some(digits_value(digits))
    } else {
        None
    }
}

/// `str::parse::<u16>`: reads an optional `+` and decimal digits, and fails on
/// anything else, on no digit at all and on a number above `u16::MAX`.
#[verifier::external_body]
pub(crate) fn parse_u16(text: &str) -> (number: Option<u16>)
    ensures
        match number {
            Some(n) => parsed_number(text@, u16::MAX as nat) == Some(n as nat),
            None => parsed_number(text@, u16::MAX as nat) is None,
        },
{
    text.parse::<u16>().ok()
}

/// `str::parse::<usize>`: reads an optional `+` and decimal digits, and fails on
/// anything else, on no digit at all and on a number above `usize::MAX`.
#[verifier::external_body]
pub(crate) fn parse_usize(text: &str) -> (number: Option<usize>)
    ensures
        match number {
            Some(n) => parsed_number(text@, usize::MAX as nat) == Some(n as nat),
            None => parsed_number(text@, usize::MAX as nat) is None,
        },
{
    text.parse::<usize>().ok()
}

/// The character of the decimal digit `d`.
pub open spec fn digit_char(d: nat) -> char {
    ('0' as nat + d) as char
}

/// `n` in decimal, without leading zeros.
pub open spec fn decimal(n: nat) -> Seq<char>
    decreases n,
{
    if n < 10 {
        seq![digit_char(n)]
    } else {
        decimal(n / 10).push(digit_char(n % 10))
    }
}

/// The text of one decimal digit.
fn digit_text(d: usize) -> (text: &'static str)
    requires
        d < 10,
    ensures
        text@ == seq![digit_char(d as nat)],
{
    proof {
        reveal_strlit("0");
        reveal_strlit("1");
        reveal_strlit("2");
        reveal_strlit("3");
        reveal_strlit("4");
        reveal_strlit("5");
        reveal_strlit("6");
        reveal_strlit("7");
        reveal_strlit("8");
        reveal_strlit("9");
    }
    match d {
        0 => "0",
        1 => "1",
        2 => "2",
        3 => "3",
        4 => "4",
        5 => "5",
        6 => "6",
        7 => "7",
        8 => "8",
        _ => "9",
    }
}

/// `n` in decimal, as it is displayed.
pub(crate) fn display_usize(n: usize) -> (text: String)
    ensures
        text@ == decimal(n as nat),
    decreases n,
{
    if n < 10 {
        digit_text(n).to_owned()
    } else {
        let mut text = display_usize(n / 10);
        text.append(digit_text(n % 10));
        assert(text@ =~= decimal(n as nat));
        text
    }
}

/// What the `Debug` of a `str` prints.
pub uninterp spec fn str_debug(text: Seq<char>) -> Seq<char>;

/// The `Debug` of a `str`: the text in quotes, with escapes. The text it prints
/// is a function of the text it is given; how it escapes is left unsaid.
#[verifier::external_body]
pub(crate) fn debug_str(text: &str) -> (quoted: String)
    ensures
        quoted@ == str_debug(text@),
{
    format!("{:?}", text)
}

/// What the `Debug` of a `Path` prints, for a path that is text.
pub uninterp spec fn path_debug(path: Seq<char>) -> Seq<char>;

/// The `Debug` of a `std::path::Path`: the path in quotes, with escapes. The
/// text it prints is a function of the path it is given; how it escapes is left
/// unsaid.
#[verifier::external_body]
pub(crate) fn debug_path(path: &str) -> (quoted: String)
    ensures
        quoted@ == path_debug(path@),
{
    format!("{:?}", std::path::Path::new(path))
}

/// The text of a number is made of digits, writes that number, and starts with a zero
/// only if it is the number zero.
pub proof fn law_number_text_writes_the_number(n: nat, max: nat)
    requires
        n <= max,
    ensures
        parsed_number(decimal(n), max) == Some(n),
        decimal(n)[0] == '0' <==> n == 0,
        n == 0 ==> decimal(n) == seq!['0'],
{
    lemma_decimal(n);
    assert(without_plus(decimal(n)) == decimal(n));
}

proof fn lemma_decimal(n: nat)
    ensures
        is_digits(decimal(n)),
        digits_value(decimal(n)) == n,
        decimal(n)[0] == '0' <==> n == 0,
        decimal(n)[0] != '+',
    decreases n,
{
    let d = digit_char(n % 10);
    assert(is_digit(d) && d as nat - '0' as nat == n % 10);
    if n < 10 {
        assert(decimal(n).drop_last() =~= Seq::empty());
        assert(decimal(n).last() == digit_char(n));
        assert(digits_value(Seq::empty()) == 0);
    } else {
        lemma_decimal(n / 10);
        assert(decimal(n).drop_last() =~= decimal(n / 10));
        assert(decimal(n).last() == d);
        assert forall|i: int| 0 <= i < decimal(n).len() implies is_digit(#[trigger] decimal(n)[i])
            by {
            if i < decimal(n / 10).len() {
                assert(decimal(n)[i] == decimal(n / 10)[i]);
            }
        }
    }
}

} // verus!
