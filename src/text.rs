//! Text built from plain values: decimal numbers, game titles, correlation
//! keys and stream URLs.

use vstd::prelude::*;
use vstd::string::*;

verus! {

/// The character of a decimal digit.
pub open spec fn digit_char(d: nat) -> char {
    if d == 0 { '0' }
    else if d == 1 { '1' }
    else if d == 2 { '2' }
    else if d == 3 { '3' }
    else if d == 4 { '4' }
    else if d == 5 { '5' }
    else if d == 6 { '6' }
    else if d == 7 { '7' }
    else if d == 8 { '8' }
    else { '9' }
}

/// The decimal notation of `n`, without leading zeros.
pub open spec fn decimal(n: nat) -> Seq<char>
    decreases n,
{
    if n < 10 {
        seq![digit_char(n)]
    } else {
        decimal(n / 10).push(digit_char(n % 10))
    }
}

/// The words that introduce the inning: "Bottom of" for the bottom half,
/// "Top of" for anything else, a missing half included.
pub open spec fn half_label(half: Seq<char>) -> Seq<char> {
    if half == "Bottom"@ { "Bottom of"@ } else { "Top of"@ }
}

/// `"{away} ({away_score}) vs {home} ({home_score}) | {Top of|Bottom of} {inning}"`.
pub open spec fn title_of(
    away_abbr: Seq<char>,
    away_score: nat,
    home_abbr: Seq<char>,
    home_score: nat,
    inning_half: Seq<char>,
    inning: Seq<char>,
) -> Seq<char> {
    away_abbr + " ("@ + decimal(away_score) + ") vs "@ + home_abbr + " ("@ + decimal(home_score)
        + ") | "@ + half_label(inning_half) + " "@ + inning
}

/// `"{away full name} vs {home full name}"`.
pub open spec fn key_of(away_name: Seq<char>, home_name: Seq<char>) -> Seq<char> {
    away_name + " vs "@ + home_name
}

/// The address that lists the streams of one source.
pub open spec fn stream_url_of(kind: Seq<char>, id: Seq<char>) -> Seq<char> {
    "https://streamed.su/api/stream/"@ + kind + "/"@ + id
}

pub(crate) fn digit_text(d: u64) -> (r: &'static str)
    requires
        d < 10,
    ensures
        r@ == seq![digit_char(d as nat)],
{
    proof {
        reveal_strlit("0");
        reveal_strlit("1");
        reveal_strlit("2");
        reveal_strlit("3");
        reveal_strlit("4");
        reveal_strlit("5");
        reveal_strlit("6");
        reveal_strlit("7");
        reveal_strlit("8");
        reveal_strlit("9");
    }
    match d {
        0 => "0",
        1 => "1",
        2 => "2",
        3 => "3",
        4 => "4",
        5 => "5",
        6 => "6",
        7 => "7",
        8 => "8",
        _ => "9",
    }
}

/// Writes `n` in decimal.
pub fn decimal_text(n: u64) -> (r: String)
    ensures
        r@ == decimal(n as nat),
{
    let mut rest: u64 = n;
    let mut out = String::new();
    assert(decimal(n as nat) =~= decimal(rest as nat) + out@);
    loop
        invariant
            decimal(n as nat) == decimal(rest as nat) + out@,
        decreases rest,
    {
        let d = digit_text(rest % 10);
        let next = String::from_str(d).concat(out.as_str());
        proof {
            if rest < 10 {
                assert(next@ =~= decimal(rest as nat) + out@);
            } else {
                assert(decimal(rest as nat) == decimal((rest / 10) as nat).push(
                    digit_char((rest % 10) as nat),
                ));
                assert(decimal(rest as nat) + out@ =~= decimal((rest / 10) as nat) + next@);
            }
        }
        out = next;
        if rest < 10 {
            return out;
        }
        rest = rest / 10;
    }
}

/// Whether two strings hold the same characters.
pub fn same_text(a: &str, b: &str) -> (r: bool)
    ensures
        r == (a@ == b@),
{
    String::from_str(a) == String::from_str(b)
}

/// The display title of a game in play.
pub fn format_title(
    away_abbr: &str,
    away_score: u64,
    home_abbr: &str,
    home_score: u64,
    inning_half: &str,
    inning: &str,
) -> (r: String)
    ensures
        r@ == title_of(
            away_abbr@,
            away_score as nat,
            home_abbr@,
            home_score as nat,
            inning_half@,
            inning@,
        ),
{
    proof {
        reveal_strlit("Bottom");
        reveal_strlit("Bottom of");
        reveal_strlit("Top of");
    }
    let label: &str = if same_text(inning_half, "Bottom") { "Bottom of" } else { "Top of" };
    let away_digits = decimal_text(away_score);
    let home_digits = decimal_text(home_score);
    let mut r = String::from_str(away_abbr);
    r.append(" (");
    r.append(away_digits.as_str());
    r.append(") vs ");
    r.append(home_abbr);
    r.append(" (");
    r.append(home_digits.as_str());
    r.append(") | ");
    r.append(label);
    r.append(" ");
    r.append(inning);
    r
}

/// The key under which the streaming service lists a game.
pub fn correlation_key(away_name: &str, home_name: &str) -> (r: String)
    ensures
        r@ == key_of(away_name@, home_name@),
{
    let mut r = String::from_str(away_name);
    r.append(" vs ");
    r.append(home_name);
    r
}

/// The address that lists the streams of the source `id` of type `kind`.
pub fn stream_url(kind: &str, id: &str) -> (r: String)
    ensures
        r@ == stream_url_of(kind@, id@),
{
    let mut r = String::from_str("https://streamed.su/api/stream/");
    r.append(kind);
    r.append("/");
    r.append(id);
    r
}

} // verus!
