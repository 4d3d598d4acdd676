use vstd::prelude::*;

use crate::board::Token;

verus! {

/// What `str::trim` leaves of a text.
pub uninterp spec fn trimmed(s: Seq<char>) -> Seq<char>;

/// What `str::to_lowercase` makes of a text.
pub uninterp spec fn lower_of(s: Seq<char>) -> Seq<char>;

/// Relies on str::trim: the text without leading and trailing white space,
/// which depends on the characters alone.
#[verifier::external_body]
pub(crate) fn trim_text(s: &str) -> (r: &str)
    ensures
        r@ == trimmed(s@),
{
    s.trim()
}

/// Relies on str::to_lowercase: the lower-case form of the text, which
/// depends on the characters alone.
#[verifier::external_body]
pub(crate) fn lowercase(s: &str) -> (r: String)
    ensures
        r@ == lower_of(s@),
{
    s.to_lowercase()
}

/// An ASCII decimal digit.
pub open spec fn is_digit(c: char) -> bool {
    '0' <= c <= '9'
}

/// The number that a string of decimal digits writes.
pub open spec fn digits_value(s: Seq<char>) -> int
    decreases s.len(),
{
    if s.len() == 0 {
        0
    } else {
        digits_value(s.drop_last()) * 10 + (s.last() as int - '0' as int)
    }
}

/// The unsigned number that a text writes: an optional `+`, then one or more
/// decimal digits, and nothing else, for a value that fits in 32 bits.
pub open spec fn parsed_u32(s: Seq<char>) -> Option<u32> {
    let d = if s.len() > 0 && s[0] == '+' {
        s.drop_first()
    } else {
        s
    };
    if d.len() > 0 && (forall|i: int| 0 <= i < d.len() ==> is_digit(#[trigger] d[i]))
        && digits_value(d) <= u32::MAX {
        Some(digits_value(d) as u32)
    } else {
        None
    }
}

/// Relies on `<u32 as FromStr>::from_str`, which takes an optional `+` and
/// decimal digits, and fails on anything else or on a value out of range.
#[verifier::external_body]
pub(crate) fn parse_u32(s: &str) -> (r: Option<u32>)
    ensures
        r == parsed_u32(s@),
{
    s.parse::<u32>().ok()
}

/// Relies on rand::random: a `u32` drawn uniformly by the thread's generator.
/// Nothing is known of its value.
#[verifier::external_body]
pub(crate) fn random_u32() -> (r: u32) {
    rand::random::<u32>()
}

/// The mark that an answer to "x or o" picks, in either case.
pub open spec fn token_choice(s: Seq<char>) -> Option<Token> {
    if s.len() == 1 && (s[0] == 'x' || s[0] == 'X') {
        Some(Token::X)
    } else if s.len() == 1 && (s[0] == 'o' || s[0] == 'O') {
        Some(Token::O)
    } else {
        None
    }
}

/// The mark that `choice` names: `x` or `X`, `o` or `O`; `None` for
/// anything else.
pub fn parse_token(choice: &str) -> (r: Option<Token>)
    ensures
        r == token_choice(choice@),
{
    if choice.unicode_len() != 1 {
        return None;
    }
    let c = choice.get_char(0);
    if c == 'x' || c == 'X' {
        Some(Token::X)
    } else if c == 'o' || c == 'O' {
        Some(Token::O)
    } else {
        None
    }
}

/// The mark picked by a line that the player typed, white space around it
/// aside.
pub fn read_token_choice(line: &str) -> (r: Option<Token>)
    ensures
        r == token_choice(trimmed(line@)),
{
    parse_token(trim_text(line))
}

/// An answer that says yes: "y" or "yes".
pub open spec fn is_yes_answer(s: Seq<char>) -> bool {
    s == seq!['y'] || s == seq!['y', 'e', 's']
}

/// Whether an already lower-cased and trimmed answer says yes.
pub fn answer_is_yes(answer: &str) -> (r: bool)
    ensures
        r == is_yes_answer(answer@),
{
    let n = answer.unicode_len();
    if n == 1 {
        let r = answer.get_char(0) == 'y';
        assert(r ==> answer@ =~= seq!['y']);
        r
    } else if n == 3 {
        let r = answer.get_char(0) == 'y' && answer.get_char(1) == 'e' && answer.get_char(2) == 's';
        assert(r ==> answer@ =~= seq!['y', 'e', 's']);
        r
    } else {
        false
    }
}

/// Whether the player's answer to "are you finished?" says yes, in any case
/// and with white space around it.
pub fn player_is_finished(line: &str) -> (r: bool)
    ensures
        r == is_yes_answer(trimmed(lower_of(line@))),
{
    let lower = lowercase(line);
    answer_is_yes(trim_text(lower.as_str()))
}

} // verus!
