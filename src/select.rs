//! The user's choice of a game, and the order in which schedules are tried.

use vstd::prelude::*;
use crate::text::{decimal, digit_char};

verus! {

/// The text with white space removed from both ends.
pub uninterp spec fn trimmed(s: Seq<char>) -> Seq<char>;

/// A character that Unicode does not count as white space: printable ASCII
/// other than the space.
pub open spec fn is_visible_ascii(c: char) -> bool {
    '!' <= c && c <= '~'
}

pub open spec fn is_digit(c: char) -> bool {
    '0' <= c && c <= '9'
}

pub open spec fn all_digits(s: Seq<char>) -> bool {
    forall|i: int| 0 <= i < s.len() ==> is_digit(#[trigger] s[i])
}

/// The number that a run of decimal digits denotes.
pub open spec fn digits_value(s: Seq<char>) -> nat
    decreases s.len(),
{
    if s.len() == 0 {
        0
    } else {
        digits_value(s.drop_last()) * 10 + ((s.last() as u32) - ('0' as u32)) as nat
    }
}

/// What `usize::from_str` reads: an optional `+`, then one or more decimal
/// digits, denoting a number that fits a `usize`.
pub open spec fn usize_value(s: Seq<char>) -> Option<usize> {
    let digits = if s.len() > 0 && s[0] == '+' { s.drop_first() } else { s };
    if digits.len() > 0 && all_digits(digits) && digits_value(digits) <= usize::MAX {
        Some(digits_value(digits) as usize)
    } else {
        None
    }
}

/// The index (from 0) of the game that an input line selects among `count`
/// games: the line, trimmed, must be a number from 1 to `count`.
pub open spec fn selection_of(input: Seq<char>, count: usize) -> Option<usize> {
    choice_of(trimmed(input), count)
}

/// The index (from 0) of the game that a trimmed line selects among `count`
/// games: it must be a number from 1 to `count`.
pub open spec fn choice_of(line: Seq<char>, count: usize) -> Option<usize> {
    match usize_value(line) {
        Some(n) => if 1 <= n && n <= count {
            Some((n - 1) as usize)
        } else {
            None
        },
        None => None,
    }
}

/// Relies on str::trim: it removes leading and trailing white space, so text
/// that begins and ends with a visible ASCII character, or is empty, stays
/// as it is.
#[verifier::external_body]
fn trim_text(s: &str) -> (r: &str)
    ensures
        r@ == trimmed(s@),
        s@.len() == 0 || (is_visible_ascii(s@[0]) && is_visible_ascii(s@.last())) ==> r@ == s@,
{
    s.trim()
}

/// Relies on `usize`'s `FromStr`: an optional `+` and decimal digits, whose
/// value must fit.
#[verifier::external_body]
fn parse_usize(s: &str) -> (r: Option<usize>)
    ensures
        r == usize_value(s@),
{
    s.parse::<usize>().ok()
}

/// Reads the user's choice among `count` games: `Some(i)` selects the game
/// at index `i` (the line holds `i + 1`); anything else is refused.
pub fn parse_selection(input: &str, count: usize) -> (r: Option<usize>)
    ensures
        r == selection_of(input@, count),
        input@.len() == 0 || (is_visible_ascii(input@[0]) && is_visible_ascii(input@.last()))
            ==> r == choice_of(input@, count),
{
    choose_game(trim_text(input), count)
}

/// Reads a trimmed line as the choice of a game among `count` games.
pub fn choose_game(line: &str, count: usize) -> (r: Option<usize>)
    ensures
        r == choice_of(line@, count),
{
    match parse_usize(line) {
        Some(n) => if 1 <= n && n <= count {
            Some(n - 1)
        } else {
            None
        },
        None => None,
    }
}

proof fn lemma_decimal_digits(k: nat)
    ensures
        decimal(k).len() > 0,
        all_digits(decimal(k)),
        digits_value(decimal(k)) == k,
    decreases k,
{
    if k < 10 {
        assert(digits_value(decimal(k).drop_last()) == 0) by {
            assert(decimal(k).drop_last() =~= Seq::<char>::empty());
        }
        assert((digit_char(k) as u32) - ('0' as u32) == k);
    } else {
        lemma_decimal_digits(k / 10);
        let d = decimal(k);
        assert(d.drop_last() =~= decimal(k / 10));
        assert((digit_char(k % 10) as u32) - ('0' as u32) == k % 10);
        assert forall|i: int| 0 <= i < d.len() implies is_digit(#[trigger] d[i]) by {
            if i < d.len() - 1 {
                assert(d[i] == decimal(k / 10)[i]);
            }
        }
    }
}

/// A trimmed line selects exactly the numbers from 1 to the number of games:
/// the decimal notation of `k` selects the game at index `k - 1` when `k` is
/// at most `count`, and nothing when it is larger; "0", "-1", "abc" and the
/// empty line select nothing.
pub proof fn lemma_selection_range(count: usize, k: nat)
    ensures
        1 <= k <= count ==> choice_of(decimal(k), count) == Some((k - 1) as usize),
        k > count ==> choice_of(decimal(k), count) is None,
        choice_of("0"@, count) is None,
        choice_of("-1"@, count) is None,
        choice_of("abc"@, count) is None,
        choice_of(""@, count) is None,
{
    lemma_decimal_digits(k);
    let d = decimal(k);
    assert(is_digit(d[0]) && is_digit(d.last()));
    reveal_strlit("0");
    reveal_strlit("-1");
    reveal_strlit("abc");
    reveal_strlit("");
    assert(digits_value("0"@) == 0) by {
        assert("0"@.drop_last() =~= Seq::<char>::empty());
        assert(digits_value(Seq::<char>::empty()) == 0);
        assert("0"@.last() == '0');
    }
    assert(!is_digit("-1"@[0]));
    assert(!is_digit("abc"@[0]));
}

} // verus!
