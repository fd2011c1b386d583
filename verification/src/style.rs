//! Text for a terminal: colours, weights and numbers.

use vstd::prelude::*;
use vstd::string::StringExecFns;

use crate::text;

verus! {

/// Text between two escape sequences.
pub open spec fn between(on: Seq<char>, text: Seq<char>, off: Seq<char>) -> Seq<char> {
    on + text + off
}

/// Dimmed text.
pub open spec fn dimmed_text(text: Seq<char>) -> Seq<char> {
    between("\u{1b}[2m"@, text, "\u{1b}[0m"@)
}

/// Bold text.
pub open spec fn bold_text(text: Seq<char>) -> Seq<char> {
    between("\u{1b}[1m"@, text, "\u{1b}[0m"@)
}

/// Green text.
pub open spec fn green_text(text: Seq<char>) -> Seq<char> {
    between("\u{1b}[32m"@, text, "\u{1b}[39m"@)
}

/// Red text.
pub open spec fn red_text(text: Seq<char>) -> Seq<char> {
    between("\u{1b}[31m"@, text, "\u{1b}[39m"@)
}

/// Dims text with `owo_colors::OwoColorize::dimmed`.
///
/// Trusted: the escape sequence for dim, the text, and the escape sequence that resets.
#[verifier::external_body]
pub(crate) fn dimmed(text: &str) -> (painted: String)
    ensures
        painted@ == dimmed_text(text@),
{
    owo_colors::OwoColorize::dimmed(&text).to_string()
}

/// Makes text bold with `owo_colors::OwoColorize::bold`.
///
/// Trusted: the escape sequence for bold, the text, and the escape sequence that resets.
#[verifier::external_body]
pub(crate) fn bold(text: &str) -> (painted: String)
    ensures
        painted@ == bold_text(text@),
{
    owo_colors::OwoColorize::bold(&text).to_string()
}

/// Makes text green with `owo_colors::OwoColorize::green`.
///
/// Trusted: the escape sequence for a green foreground, the text, and the escape sequence for the
/// default foreground.
#[verifier::external_body]
pub(crate) fn green(text: &str) -> (painted: String)
    ensures
        painted@ == green_text(text@),
{
    owo_colors::OwoColorize::green(&text).to_string()
}

/// Makes text red with `owo_colors::OwoColorize::red`.
///
/// Trusted: the escape sequence for a red foreground, the text, and the escape sequence for the
/// default foreground.
#[verifier::external_body]
pub(crate) fn red(text: &str) -> (painted: String)
    ensures
        painted@ == red_text(text@),
{
    owo_colors::OwoColorize::red(&text).to_string()
}

/// The character of a decimal digit.
pub open spec fn digit_char(digit: nat) -> char {
    (48 + digit) as char
}

/// A number in decimal, without leading zeros.
pub open spec fn decimal(n: nat) -> Seq<char>
    decreases n,
{
    if n < 10 {
        seq![digit_char(n)]
    } else {
        decimal(n / 10).push(digit_char(n % 10))
    }
}

/// Writes one decimal digit.
fn digit_text(digit: usize) -> (text: &'static str)
    requires
        digit < 10,
    ensures
        text@ == seq![digit_char(digit as nat)],
{
    proof {
        reveal_strlit("0");
        reveal_strlit("1");
        reveal_strlit("2");
        reveal_strlit("3");
        reveal_strlit("4");
        reveal_strlit("5");
        reveal_strlit("6");
        reveal_strlit("7");
        reveal_strlit("8");
        reveal_strlit("9");
    }
    let text = match digit {
        0 => "0",
        1 => "1",
        2 => "2",
        3 => "3",
        4 => "4",
        5 => "5",
        6 => "6",
        7 => "7",
        8 => "8",
        _ => "9",
    };
    assert(text@ =~= seq![digit_char(digit as nat)]);
    text
}

/// Writes a number in decimal.
pub fn number_text(n: usize) -> (text: String)
    ensures
        text@ == decimal(n as nat),
    decreases n,
{
    if n < 10 {
        digit_text(n).to_owned()
    } else {
        let mut text = number_text(n / 10);
        let ghost high = text@;
        text.append(digit_text(n % 10));
        assert(text@ =~= high.push(digit_char((n % 10) as nat)));
        text
    }
}

/// Text moved to the right of a column that is `width` characters wide.
pub open spec fn right_aligned(text: Seq<char>, width: nat) -> Seq<char> {
    Seq::new((width - text.len()) as nat, |i: int| ' ') + text
}

/// Moves a number to the right of a column that is three characters wide.
pub fn index_text(n: usize) -> (text: String)
    ensures
        text@ == if decimal(n as nat).len() < 3 {
            right_aligned(decimal(n as nat), 3)
        } else {
            decimal(n as nat)
        },
{
    let digits = number_text(n);
    proof {
        reveal_strlit(" ");
        reveal_strlit("  ");
    }
    let mut text = if n < 10 {
        "  ".to_owned()
    } else if n < 100 {
        " ".to_owned()
    } else {
        "".to_owned()
    };
    let ghost padding = text@;
    text.append(digits.as_str());
    proof {
        lemma_decimal_len(n as nat);
        reveal_strlit("");
        if n < 100 {
            assert(text@ =~= right_aligned(digits@, 3));
        } else {
            assert(text@ =~= digits@);
        }
    }
    text
}

/// How many digits small numbers have.
pub proof fn lemma_decimal_len(n: nat)
    ensures
        n < 10 ==> decimal(n).len() == 1,
        10 <= n < 100 ==> decimal(n).len() == 2,
        100 <= n ==> decimal(n).len() >= 3,
    decreases n,
{
    if n >= 10 {
        lemma_decimal_len(n / 10);
    }
}

} // verus!
