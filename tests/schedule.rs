use ballgame_streams::json::ResponseError;
use ballgame_streams::schedule::read_schedule;

fn team(abbr: &str, name: &str) -> String {
    format!("{{\"abbreviation\": \"{}\", \"name\": \"{}\"}}", abbr, name)
}

fn game(code: &str, away: (&str, &str, Option<u64>), home: (&str, &str, Option<u64>), linescore: &str) -> String {
    let side = |t: (&str, &str, Option<u64>)| match t.2 {
        Some(s) => format!("{{\"team\": {}, \"score\": {}}}", team(t.0, t.1), s),
        None => format!("{{\"team\": {}}}", team(t.0, t.1)),
    };
    format!(
        "{{\"status\": {{\"abstractGameCode\": \"{}\"}}, \"teams\": {{\"away\": {}, \"home\": {}}}{}}}",
        code,
        side(away),
        side(home),
        linescore
    )
}

fn schedule(dates: &[Vec<String>]) -> String {
    let ds: Vec<String> = dates
        .iter()
        .map(|gs| format!("{{\"games\": [{}]}}", gs.join(",")))
        .collect();
    format!("{{\"dates\": [{}]}}", ds.join(","))
}

const LINE_7B: &str = ", \"linescore\": {\"currentInningOrdinal\": \"7th\", \"inningHalf\": \"Bottom\"}";

#[test]
fn one_game_in_progress() {
    let body = schedule(&[vec![game(
        "L",
        ("NYY", "New York Yankees", Some(3)),
        ("BOS", "Boston Red Sox", Some(2)),
        LINE_7B,
    )]]);
    let games = read_schedule(&body).unwrap();
    assert_eq!(games.len(), 1);
    assert_eq!(games[0].title, "NYY (3) vs BOS (2) | Bottom of 7th");
    assert_eq!(games[0].key, "New York Yankees vs Boston Red Sox");
}

#[test]
fn finished_and_preview_games_left_out_in_order() {
    let body = schedule(&[
        vec![
            game("F", ("AAA", "A", Some(1)), ("BBB", "B", Some(0)), ""),
            game("L", ("CCC", "C", Some(4)), ("DDD", "D", Some(5)), LINE_7B),
            game("P", ("EEE", "E", None), ("FFF", "F", None), ""),
        ],
        vec![game("L", ("GGG", "G", Some(0)), ("HHH", "H", Some(10)), "")],
    ]);
    let games = read_schedule(&body).unwrap();
    let titles: Vec<&str> = games.iter().map(|g| g.title.as_str()).collect();
    assert_eq!(titles, vec!["CCC (4) vs DDD (5) | Bottom of 7th", "GGG (0) vs HHH (10) | Top of N/A"]);
    let keys: Vec<&str> = games.iter().map(|g| g.key.as_str()).collect();
    assert_eq!(keys, vec!["C vs D", "G vs H"]);
}

#[test]
fn missing_score_and_linescore_default() {
    let body = schedule(&[vec![game("I", ("SEA", "Seattle Mariners", None), ("OAK", "Oakland Athletics", None), "")]]);
    let games = read_schedule(&body).unwrap();
    assert_eq!(games[0].title, "SEA (0) vs OAK (0) | Top of N/A");
}

#[test]
fn top_half_and_unknown_half() {
    let top = ", \"linescore\": {\"currentInningOrdinal\": \"1st\", \"inningHalf\": \"Top\"}";
    let middle = ", \"linescore\": {\"currentInningOrdinal\": \"3rd\", \"inningHalf\": \"Middle\"}";
    let body = schedule(&[vec![
        game("L", ("A", "An", Some(0)), ("B", "Bn", Some(0)), top),
        game("L", ("C", "Cn", Some(2)), ("D", "Dn", Some(1)), middle),
    ]]);
    let games = read_schedule(&body).unwrap();
    assert_eq!(games[0].title, "A (0) vs B (0) | Top of 1st");
    assert_eq!(games[1].title, "C (2) vs D (1) | Top of 3rd");
}

#[test]
fn entry_without_status_is_kept() {
    let body = "{\"dates\": [{\"games\": [{\"teams\": {\"away\": {\"team\": {\"abbreviation\": \"X\", \"name\": \"Xs\"}}, \"home\": {\"team\": {\"abbreviation\": \"Y\", \"name\": \"Ys\"}}}}]}]}";
    let games = read_schedule(body).unwrap();
    assert_eq!(games.len(), 1);
    assert_eq!(games[0].key, "Xs vs Ys");
}

#[test]
fn no_dates_or_no_games_gives_empty_list() {
    assert_eq!(read_schedule("{\"dates\": []}").unwrap().len(), 0);
    assert_eq!(read_schedule("{\"dates\": [{\"games\": []}]}").unwrap().len(), 0);
    let only_final = schedule(&[vec![game("F", ("A", "A", Some(1)), ("B", "B", Some(2)), "")]]);
    assert_eq!(read_schedule(&only_final).unwrap().len(), 0);
}

#[test]
fn schedule_errors() {
    assert_eq!(read_schedule("not json").err(), Some(ResponseError::NotJson));
    assert_eq!(read_schedule("{}").err(), Some(ResponseError::MissingField));
    assert_eq!(read_schedule("{\"dates\": [{}]}").err(), Some(ResponseError::MissingField));
    let live_without_abbr = "{\"dates\": [{\"games\": [{\"status\": {\"abstractGameCode\": \"L\"}, \"teams\": {\"away\": {\"team\": {\"name\": \"Xs\"}}, \"home\": {\"team\": {\"abbreviation\": \"Y\", \"name\": \"Ys\"}}}}]}]}";
    assert_eq!(read_schedule(live_without_abbr).err(), Some(ResponseError::MissingField));
    let final_without_teams = "{\"dates\": [{\"games\": [{\"status\": {\"abstractGameCode\": \"F\"}}]}]}";
    assert_eq!(read_schedule(final_without_teams).unwrap().len(), 0);
}

#[test]
fn key_ignores_scores_and_inning() {
    let a = schedule(&[vec![game("L", ("NYY", "New York Yankees", Some(3)), ("BOS", "Boston Red Sox", Some(2)), LINE_7B)]]);
    let b = schedule(&[vec![game("L", ("NYY", "New York Yankees", Some(9)), ("BOS", "Boston Red Sox", None), "")]]);
    let ga = read_schedule(&a).unwrap();
    let gb = read_schedule(&b).unwrap();
    assert_eq!(ga[0].key, gb[0].key);
    assert_ne!(ga[0].title, gb[0].title);
}
