//! The day's schedule: which games are in play, and how each is shown and
//! keyed.
//!
//! A game is kept when its abstract game code is neither "F" (final) nor
//! "P" (preview); a game without a code is kept. This is the one exclusion
//! rule of the library.

use vstd::prelude::*;
use crate::json::{
    at, count_at, elements_of, get, get_count, get_text, items_at, member, opt_chars, parse,
    parsed_json, text_at, ResponseError,
};
use crate::text::{correlation_key, format_title, key_of, same_text, title_of};

verus! {

/// A game in play, as offered for selection.
pub struct Game {
    /// The score and inning, for display.
    pub title: String,
    /// The title under which the streaming service lists the game.
    pub key: String,
}

pub struct GameView {
    pub title: Seq<char>,
    pub key: Seq<char>,
}

impl View for Game {
    type V = GameView;

    open spec fn view(&self) -> GameView {
        GameView { title: self.title@, key: self.key@ }
    }
}

pub open spec fn games_view(gs: Seq<Game>) -> Seq<GameView> {
    gs.map_values(|g: Game| g@)
}

pub open spec fn or_else(t: Option<Seq<char>>, d: Seq<char>) -> Seq<char> {
    match t {
        Some(x) => x,
        None => d,
    }
}

/// The entry `side` ("home" or "away") of a game's teams.
pub open spec fn side_of(game: serde_json::Value, side: Seq<char>) -> Option<serde_json::Value> {
    at(at(Some(game), "teams"@), side)
}

pub open spec fn team_field(game: serde_json::Value, side: Seq<char>, field: Seq<char>) -> Option<
    Seq<char>,
> {
    text_at(at(at(side_of(game, side), "team"@), field))
}

/// A side's score, 0 where it is absent.
pub open spec fn score_of(game: serde_json::Value, side: Seq<char>) -> nat {
    match count_at(at(side_of(game, side), "score"@)) {
        Some(n) => n as nat,
        None => 0,
    }
}

pub open spec fn status_code(game: serde_json::Value) -> Option<Seq<char>> {
    text_at(at(at(Some(game), "status"@), "abstractGameCode"@))
}

/// Whether a schedule entry is a game in play.
pub open spec fn is_live(game: serde_json::Value) -> bool {
    status_code(game) != Some("F"@) && status_code(game) != Some("P"@)
}

pub open spec fn inning_half_of(game: serde_json::Value) -> Seq<char> {
    or_else(text_at(at(at(Some(game), "linescore"@), "inningHalf"@)), "Top"@)
}

pub open spec fn inning_of(game: serde_json::Value) -> Seq<char> {
    or_else(text_at(at(at(Some(game), "linescore"@), "currentInningOrdinal"@)), "N/A"@)
}

/// The game that an entry describes; nothing where a team's abbreviation or
/// name is missing.
pub open spec fn game_of(game: serde_json::Value) -> Option<GameView> {
    match (
        team_field(game, "away"@, "abbreviation"@),
        team_field(game, "home"@, "abbreviation"@),
        team_field(game, "away"@, "name"@),
        team_field(game, "home"@, "name"@),
    ) {
        (Some(away_abbr), Some(home_abbr), Some(away_name), Some(home_name)) => Some(
            GameView {
                title: title_of(
                    away_abbr,
                    score_of(game, "away"@),
                    home_abbr,
                    score_of(game, "home"@),
                    inning_half_of(game),
                    inning_of(game),
                ),
                key: key_of(away_name, home_name),
            },
        ),
        _ => None,
    }
}

/// What an entry adds to the list: nothing for a game not in play, the game
/// for one in play; the whole read fails where that game is incomplete.
pub open spec fn entry_games(game: serde_json::Value) -> Option<Seq<GameView>> {
    if !is_live(game) {
        Some(Seq::empty())
    } else {
        match game_of(game) {
            Some(g) => Some(seq![g]),
            None => None,
        }
    }
}

/// The games of the entries of one date, in order.
pub open spec fn games_in(gs: Seq<serde_json::Value>) -> Option<Seq<GameView>>
    decreases gs.len(),
{
    if gs.len() == 0 {
        Some(Seq::empty())
    } else {
        match (games_in(gs.drop_last()), entry_games(gs.last())) {
            (Some(a), Some(b)) => Some(a + b),
            _ => None,
        }
    }
}

/// The games of one date; the date must list its games.
pub open spec fn date_games(d: serde_json::Value) -> Option<Seq<GameView>> {
    match items_at(at(Some(d), "games"@)) {
        Some(gs) => games_in(gs),
        None => None,
    }
}

/// The games of all dates, date after date.
pub open spec fn dates_games(ds: Seq<serde_json::Value>) -> Option<Seq<GameView>>
    decreases ds.len(),
{
    if ds.len() == 0 {
        Some(Seq::empty())
    } else {
        match (dates_games(ds.drop_last()), date_games(ds.last())) {
            (Some(a), Some(b)) => Some(a + b),
            _ => None,
        }
    }
}

/// The games in play of a schedule document.
pub open spec fn schedule_of(doc: serde_json::Value) -> Option<Seq<GameView>> {
    match items_at(at(Some(doc), "dates"@)) {
        Some(ds) => dates_games(ds),
        None => None,
    }
}

/// What reading a schedule response body gives.
pub open spec fn schedule_from(body: Seq<char>) -> Result<Seq<GameView>, ResponseError> {
    match parsed_json(body) {
        None => Err(ResponseError::NotJson),
        Some(doc) => match schedule_of(doc) {
            Some(gs) => Ok(gs),
            None => Err(ResponseError::MissingField),
        },
    }
}

proof fn lemma_games_in_fails(gs: Seq<serde_json::Value>, i: int)
    requires
        0 <= i <= gs.len(),
        games_in(gs.take(i)) is None,
    ensures
        games_in(gs) is None,
    decreases gs.len() - i,
{
    if i < gs.len() {
        assert(gs.take(i + 1).drop_last() =~= gs.take(i));
        lemma_games_in_fails(gs, i + 1);
    } else {
        assert(gs.take(i) =~= gs);
    }
}

proof fn lemma_dates_games_fails(ds: Seq<serde_json::Value>, i: int)
    requires
        0 <= i <= ds.len(),
        dates_games(ds.take(i)) is None,
    ensures
        dates_games(ds) is None,
    decreases ds.len() - i,
{
    if i < ds.len() {
        assert(ds.take(i + 1).drop_last() =~= ds.take(i));
        lemma_dates_games_fails(ds, i + 1);
    } else {
        assert(ds.take(i) =~= ds);
    }
}

fn text_or(t: Option<String>, d: &str) -> (r: String)
    ensures
        r@ == or_else(opt_chars(t), d@),
{
    match t {
        Some(s) => s,
        None => String::from_str(d),
    }
}

fn is_live_code(code: &Option<String>) -> (r: bool)
    ensures
        r == (opt_chars(*code) != Some("F"@) && opt_chars(*code) != Some("P"@)),
{
    match code {
        Some(c) => !same_text(c.as_str(), "F") && !same_text(c.as_str(), "P"),
        None => true,
    }
}

/// Reads one schedule entry: `Ok(None)` for a game not in play.
pub fn read_entry(game: &serde_json::Value) -> (r: Result<Option<Game>, ResponseError>)
    ensures
        entry_games(*game) is None <==> r is Err,
        r matches Err(e) ==> e == ResponseError::MissingField,
        r matches Ok(None) ==> entry_games(*game) == Some(Seq::<GameView>::empty()),
        r matches Ok(Some(g)) ==> entry_games(*game) == Some(seq![g@]),
{
    let code = get_text(&get(&member(game, "status"), "abstractGameCode"));
    if !is_live_code(&code) {
        return Ok(None);
    }
    let teams = member(game, "teams");
    let away = get(&teams, "away");
    let home = get(&teams, "home");
    let away_team = get(&away, "team");
    let home_team = get(&home, "team");
    let away_abbr = get_text(&get(&away_team, "abbreviation"));
    let home_abbr = get_text(&get(&home_team, "abbreviation"));
    let away_name = get_text(&get(&away_team, "name"));
    let home_name = get_text(&get(&home_team, "name"));
    let (away_abbr, home_abbr, away_name, home_name) = match (
        away_abbr,
        home_abbr,
        away_name,
        home_name,
    ) {
        (Some(a), Some(b), Some(c), Some(d)) => (a, b, c, d),
        _ => {
            return Err(ResponseError::MissingField);
        },
    };
    let away_score = match get_count(&get(&away, "score")) {
        Some(n) => n,
        None => 0,
    };
    let home_score = match get_count(&get(&home, "score")) {
        Some(n) => n,
        None => 0,
    };
    let linescore = member(game, "linescore");
    let inning = text_or(get_text(&get(&linescore, "currentInningOrdinal")), "N/A");
    let half = text_or(get_text(&get(&linescore, "inningHalf")), "Top");
    let title = format_title(
        away_abbr.as_str(),
        away_score,
        home_abbr.as_str(),
        home_score,
        half.as_str(),
        inning.as_str(),
    );
    let key = correlation_key(away_name.as_str(), home_name.as_str());
    let out = Game { title, key };
    assert(entry_games(*game) == Some(seq![out@]));
    Ok(Some(out))
}

/// Reads the entries of one date, in order.
fn read_entries(gs: &Vec<serde_json::Value>) -> (r: Result<Vec<Game>, ResponseError>)
    ensures
        games_in(gs@) is None <==> r is Err,
        r matches Err(e) ==> e == ResponseError::MissingField,
        r matches Ok(out) ==> games_in(gs@) == Some(games_view(out@)),
{
    let mut out: Vec<Game> = Vec::new();
    let mut i: usize = 0;
    assert(gs@.take(0) =~= Seq::<serde_json::Value>::empty());
    assert(games_view(out@) =~= Seq::<GameView>::empty());
    while i < gs.len()
        invariant
            i <= gs@.len(),
            games_in(gs@.take(i as int)) == Some(games_view(out@)),
        decreases gs@.len() - i,
    {
        let ghost before = out@;
        assert(gs@.take(i + 1).drop_last() =~= gs@.take(i as int));
        assert(gs@.take(i + 1).last() == gs@[i as int]);
        match read_entry(&gs[i]) {
            Ok(Some(g)) => {
                out.push(g);
                assert(games_view(out@) =~= games_view(before) + seq![g@]);
            },
            Ok(None) => {
                assert(games_view(out@) =~= games_view(before) + Seq::<GameView>::empty());
            },
            Err(e) => {
                proof {
                    lemma_games_in_fails(gs@, i + 1);
                }
                return Err(e);
            },
        }
        i = i + 1;
    }
    assert(gs@.take(i as int) =~= gs@);
    Ok(out)
}

/// Reads the games in play of a schedule document, date after date, each
/// in the order of the document.
pub fn read_schedule_document(doc: &serde_json::Value) -> (r: Result<Vec<Game>, ResponseError>)
    ensures
        schedule_of(*doc) is None <==> r is Err,
        r matches Err(e) ==> e == ResponseError::MissingField,
        r matches Ok(out) ==> schedule_of(*doc) == Some(games_view(out@)),
{
    let ds = match elements_of(&member(doc, "dates")) {
        Some(ds) => ds,
        None => {
            return Err(ResponseError::MissingField);
        },
    };
    let mut out: Vec<Game> = Vec::new();
    let mut i: usize = 0;
    assert(ds@.take(0) =~= Seq::<serde_json::Value>::empty());
    assert(games_view(out@) =~= Seq::<GameView>::empty());
    while i < ds.len()
        invariant
            i <= ds@.len(),
            items_at(at(Some(*doc), "dates"@)) == Some(ds@),
            dates_games(ds@.take(i as int)) == Some(games_view(out@)),
        decreases ds@.len() - i,
    {
        let ghost before = out@;
        assert(ds@.take(i + 1).drop_last() =~= ds@.take(i as int));
        assert(ds@.take(i + 1).last() == ds@[i as int]);
        let games = match elements_of(&member(&ds[i], "games")) {
            Some(gs) => gs,
            None => {
                proof {
                    lemma_dates_games_fails(ds@, i + 1);
                }
                return Err(ResponseError::MissingField);
            },
        };
        match read_entries(&games) {
            Ok(more) => {
                let mut more = more;
                let ghost added = more@;
                out.append(&mut more);
                assert(games_view(out@) =~= games_view(before) + games_view(added));
            },
            Err(e) => {
                proof {
                    lemma_dates_games_fails(ds@, i + 1);
                }
                return Err(e);
            },
        }
        i = i + 1;
    }
    assert(ds@.take(i as int) =~= ds@);
    Ok(out)
}

/// Reads a schedule response body into the games in play.
pub fn read_schedule(body: &str) -> (r: Result<Vec<Game>, ResponseError>)
    ensures
        r matches Ok(out) ==> schedule_from(body@) == Ok::<Seq<GameView>, ResponseError>(
            games_view(out@),
        ),
        r matches Err(e) ==> schedule_from(body@) == Err::<Seq<GameView>, ResponseError>(e),
{
    let doc = parse(body)?;
    read_schedule_document(&doc)
}

/// The entries that are games in play, in their order.
pub open spec fn live_entries(gs: Seq<serde_json::Value>) -> Seq<serde_json::Value> {
    gs.filter(|g: serde_json::Value| is_live(g))
}

/// Where every entry in play names both teams, the games read from a date's
/// entries are exactly its entries in play, in their order, one game each:
/// so there are as many games as entries in play.
pub proof fn lemma_live_entries_kept(gs: Seq<serde_json::Value>)
    requires
        forall|i: int| 0 <= i < gs.len() && is_live(#[trigger] gs[i]) ==> game_of(gs[i]) is Some,
    ensures
        games_in(gs) == Some(live_entries(gs).map_values(|g: serde_json::Value| game_of(g)->0)),
        games_in(gs)->0.len() == live_entries(gs).len(),
    decreases gs.len(),
{
    reveal(Seq::filter);
    if gs.len() > 0 {
        let rest = gs.drop_last();
        assert forall|i: int| 0 <= i < rest.len() && is_live(#[trigger] rest[i]) implies game_of(
            rest[i],
        ) is Some by {
            assert(rest[i] == gs[i]);
        }
        lemma_live_entries_kept(rest);
        assert(is_live(gs.last()) ==> game_of(gs[gs.len() - 1]) is Some);
        let f = |g: serde_json::Value| game_of(g)->0;
        if is_live(gs.last()) {
            assert(live_entries(gs) == live_entries(rest).push(gs.last()));
            assert(live_entries(gs).map_values(f) =~= live_entries(rest).map_values(f) + seq![
                f(gs.last()),
            ]);
        } else {
            assert(live_entries(gs) == live_entries(rest));
            assert(live_entries(rest).map_values(f) + Seq::<GameView>::empty()
                =~= live_entries(rest).map_values(f));
        }
    } else {
        assert(live_entries(gs).map_values(|g: serde_json::Value| game_of(g)->0) =~= Seq::<
            GameView,
        >::empty());
    }
}

/// The game of an entry in play.
pub open spec fn live_game(g: serde_json::Value) -> GameView {
    game_of(g)->0
}

/// Where every entry in play of a schedule names both teams, the games read
/// from the schedule are exactly its entries in play, date after date and in
/// the order of each date, one game each: so there are as many games as
/// entries in play. `entries[i]` stands for the entries of date `i`.
pub proof fn lemma_schedule_keeps_live_entries(
    dates: Seq<serde_json::Value>,
    entries: Seq<Seq<serde_json::Value>>,
)
    requires
        dates.len() == entries.len(),
        forall|i: int|
            0 <= i < dates.len() ==> items_at(at(Some(#[trigger] dates[i]), "games"@)) == Some(
                entries[i],
            ),
        forall|i: int, j: int|
            0 <= i < entries.len() && 0 <= j < entries[i].len() && is_live(
                #[trigger] entries[i][j],
            ) ==> game_of(entries[i][j]) is Some,
    ensures
        dates_games(dates) == Some(
            live_entries(entries.flatten()).map_values(|g: serde_json::Value| live_game(g)),
        ),
        dates_games(dates)->0.len() == live_entries(entries.flatten()).len(),
    decreases dates.len(),
{
    let f = |g: serde_json::Value| live_game(g);
    entries.lemma_flatten_and_flatten_alt_are_equivalent();
    if dates.len() == 0 {
        assert(live_entries(entries.flatten()).map_values(f) =~= Seq::<GameView>::empty()) by {
            reveal(Seq::filter);
        }
    } else {
        let n = dates.len() - 1;
        let front = entries.drop_last();
        let last = entries.last();
        assert forall|i: int| 0 <= i < dates.drop_last().len() implies items_at(
            at(Some(#[trigger] dates.drop_last()[i]), "games"@),
        ) == Some(front[i]) by {
            assert(dates.drop_last()[i] == dates[i]);
        }
        assert forall|i: int, j: int|
            0 <= i < front.len() && 0 <= j < front[i].len() && is_live(
                #[trigger] front[i][j],
            ) implies game_of(front[i][j]) is Some by {
            assert(front[i] == entries[i]);
        }
        lemma_schedule_keeps_live_entries(dates.drop_last(), front);
        front.lemma_flatten_and_flatten_alt_are_equivalent();
        assert(entries.flatten() == front.flatten() + last);
        assert forall|j: int| 0 <= j < last.len() && is_live(#[trigger] last[j]) implies game_of(
            last[j],
        ) is Some by {
            assert(last[j] == entries[n][j]);
        }
        lemma_live_entries_kept(last);
        assert(items_at(at(Some(dates[n]), "games"@)) == Some(entries[n]));
        assert(dates.last() == dates[n]);
        let p = |g: serde_json::Value| is_live(g);
        Seq::filter_distributes_over_add(front.flatten(), last, p);
        assert(live_entries(entries.flatten()) == live_entries(front.flatten()) + live_entries(
            last,
        ));
        assert(live_entries(entries.flatten()).map_values(f) =~= live_entries(
            front.flatten(),
        ).map_values(f) + live_entries(last).map_values(f));
        assert(live_entries(last).map_values(f) =~= live_entries(last).map_values(
            |g: serde_json::Value| game_of(g)->0,
        ));
    }
}

/// The title of a game depends only on the two abbreviations, the two
/// scores, the inning half and the inning: entries that agree on these have
/// the same title, whatever the teams' full names.
pub proof fn lemma_title_fields_only(a: serde_json::Value, b: serde_json::Value)
    requires
        game_of(a) is Some,
        game_of(b) is Some,
        team_field(a, "away"@, "abbreviation"@) == team_field(b, "away"@, "abbreviation"@),
        team_field(a, "home"@, "abbreviation"@) == team_field(b, "home"@, "abbreviation"@),
        score_of(a, "away"@) == score_of(b, "away"@),
        score_of(a, "home"@) == score_of(b, "home"@),
        inning_half_of(a) == inning_half_of(b),
        inning_of(a) == inning_of(b),
    ensures
        game_of(a)->0.title == game_of(b)->0.title,
{
}

/// The correlation key of a game depends only on the two full names: entries
/// that agree on them have the same key, whatever their scores and innings.
pub proof fn lemma_key_names_only(a: serde_json::Value, b: serde_json::Value)
    requires
        game_of(a) is Some,
        game_of(b) is Some,
        team_field(a, "away"@, "name"@) == team_field(b, "away"@, "name"@),
        team_field(a, "home"@, "name"@) == team_field(b, "home"@, "name"@),
    ensures
        game_of(a)->0.key == game_of(b)->0.key,
        game_of(a)->0.key == key_of(
            team_field(a, "away"@, "name"@)->0,
            team_field(a, "home"@, "name"@)->0,
        ),
{
}

} // verus!
