//! Whole numbers as decimal text, and text between quotes.

use vstd::prelude::*;
use vstd::string::StringExecFns;

verus! {

/// The character of a decimal digit.
pub open spec fn digit_char(digit: nat) -> char {
    if digit == 0 {
        '0'
    } else if digit == 1 {
        '1'
    } else if digit == 2 {
        '2'
    } else if digit == 3 {
        '3'
    } else if digit == 4 {
        '4'
    } else if digit == 5 {
        '5'
    } else if digit == 6 {
        '6'
    } else if digit == 7 {
        '7'
    } else if digit == 8 {
        '8'
    } else {
        '9'
    }
}

/// The decimal digits of `n`, without leading zeros.
pub open spec fn decimal_text(n: nat) -> Seq<char>
    decreases n,
{
    if n < 10 {
        seq![digit_char(n)]
    } else {
        decimal_text(n / 10).push(digit_char(n % 10))
    }
}

/// The decimal text of a whole number, with `-` before one below zero.
pub open spec fn integer_text(n: int) -> Seq<char> {
    if n < 0 {
        seq!['-'] + decimal_text((-n) as nat)
    } else {
        decimal_text(n as nat)
    }
}

/// The text of one decimal digit.
fn digit_str(digit: u64) -> (text: &'static str)
    requires
        digit < 10,
    ensures
        text@ == seq![digit_char(digit as nat)],
{
    proof {
        reveal_strlit("0");
        reveal_strlit("1");
        reveal_strlit("2");
        reveal_strlit("3");
        reveal_strlit("4");
        reveal_strlit("5");
        reveal_strlit("6");
        reveal_strlit("7");
        reveal_strlit("8");
        reveal_strlit("9");
    }
    let text = if digit == 0 {
        "0"
    } else if digit == 1 {
        "1"
    } else if digit == 2 {
        "2"
    } else if digit == 3 {
        "3"
    } else if digit == 4 {
        "4"
    } else if digit == 5 {
        "5"
    } else if digit == 6 {
        "6"
    } else if digit == 7 {
        "7"
    } else if digit == 8 {
        "8"
    } else {
        "9"
    };
    assert(text@ =~= seq![digit_char(digit as nat)]);
    text
}

/// The decimal text of `n`.
pub fn unsigned_to_text(n: u64) -> (text: String)
    ensures
        text@ == decimal_text(n as nat),
{
    let mut text = String::from_str(digit_str(n % 10));
    let mut rest: u64 = n / 10;
    while rest > 0
        invariant
            decimal_text(n as nat) == if rest == 0 {
                text@
            } else {
                decimal_text(rest as nat) + text@
            },
        decreases rest,
    {
        let head = String::from_str(digit_str(rest % 10));
        proof {
            let digit = seq![digit_char((rest % 10) as nat)];
            if rest >= 10 {
                assert(decimal_text(rest as nat) + text@ =~= decimal_text((rest / 10) as nat) + (
                digit + text@));
            } else {
                assert(decimal_text(rest as nat) + text@ =~= digit + text@);
            }
        }
        text = head.concat(text.as_str());
        rest = rest / 10;
    }
    text
}

/// The decimal text of `n`.
pub fn integer_to_text(n: i64) -> (text: String)
    ensures
        text@ == integer_text(n as int),
{
    if n < 0 {
        let magnitude: u64 = if n == i64::MIN {
            9223372036854775808u64
        } else {
            (-n) as u64
        };
        let digits = unsigned_to_text(magnitude);
        proof {
            reveal_strlit("-");
            assert("-"@ =~= seq!['-']);
        }
        String::from_str("-").concat(digits.as_str())
    } else {
        unsigned_to_text(n as u64)
    }
}

/// `String::push` appends the character to the end of the string.
pub assume_specification[ std::string::String::push ](text: &mut std::string::String, ch: char)
    ensures
        final(text)@ == old(text)@.push(ch),
;

/// The text that stands for one character between quotes: a backslash before
/// the quote and before a backslash, `\n`, `\r` and `\t` for a line feed, a
/// carriage return and a tab, and any other character as it is.
pub open spec fn escaped_char(c: char, quote: char) -> Seq<char> {
    if c == quote || c == '\\' {
        seq!['\\', c]
    } else if c == '\n' {
        seq!['\\', 'n']
    } else if c == '\r' {
        seq!['\\', 'r']
    } else if c == '\t' {
        seq!['\\', 't']
    } else {
        seq![c]
    }
}

/// The text that stands for `text` between quotes, character by character.
pub open spec fn escaped(text: Seq<char>, quote: char) -> Seq<char>
    decreases text.len(),
{
    if text.len() == 0 {
        Seq::empty()
    } else {
        escaped(text.drop_last(), quote) + escaped_char(text.last(), quote)
    }
}

/// `text` between two quotes, with what needs it escaped.
pub open spec fn quoted(text: Seq<char>, quote: char) -> Seq<char> {
    seq![quote] + escaped(text, quote) + seq![quote]
}

/// Appends to `out` the text that stands for `c` between quotes.
fn push_escaped_char(out: &mut String, c: char, quote: char)
    ensures
        final(out)@ == old(out)@ + escaped_char(c, quote),
{
    if c == quote || c == '\\' {
        out.push('\\');
        out.push(c);
        assert(out@ =~= old(out)@ + escaped_char(c, quote));
    } else if c == '\n' {
        out.push('\\');
        out.push('n');
        assert(out@ =~= old(out)@ + escaped_char(c, quote));
    } else if c == '\r' {
        out.push('\\');
        out.push('r');
        assert(out@ =~= old(out)@ + escaped_char(c, quote));
    } else if c == '\t' {
        out.push('\\');
        out.push('t');
        assert(out@ =~= old(out)@ + escaped_char(c, quote));
    } else {
        out.push(c);
        assert(out@ =~= old(out)@ + escaped_char(c, quote));
    }
}

/// Appends to `out` the text `text` between two quotes.
pub fn push_quoted(out: &mut String, text: &str, quote: char)
    ensures
        final(out)@ == old(out)@ + quoted(text@, quote),
{
    out.push(quote);
    for c in it: text.chars()
        invariant
            it.seq() == text@,
            out@ == old(out)@ + seq![quote] + escaped(text@.take(it.index()), quote),
    {
        proof {
            let n = it.index();
            assert(text@.take(n + 1).drop_last() =~= text@.take(n));
            assert(text@.take(n + 1).last() == c);
        }
        push_escaped_char(out, c, quote);
    }
    assert(text@.take(text@.len() as int) =~= text@);
    out.push(quote);
}

} // verus!
