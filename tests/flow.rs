use ballgame_streams::flow::{
    date_of, date_text, first_step, next_step, previous_day, schedule_url, CalendarDate, Day, Step,
    MATCHES_URL,
};

fn ymd(year: i32, month: u32, day: u32) -> CalendarDate {
    CalendarDate { year, month, day }
}

#[test]
fn empty_today_goes_to_yesterday_once() {
    assert_eq!(first_step(), Step::Fetch(Day::Today));
    assert_eq!(next_step(Day::Today, 0), Step::Fetch(Day::Yesterday));
    assert_eq!(next_step(Day::Today, 3), Step::Present);
    assert_eq!(next_step(Day::Yesterday, 0), Step::Present);
    assert_eq!(next_step(Day::Yesterday, 2), Step::Present);
}

#[test]
fn previous_days() {
    assert_eq!(previous_day(ymd(2024, 5, 10)), Some(ymd(2024, 5, 9)));
    assert_eq!(previous_day(ymd(2024, 3, 1)), Some(ymd(2024, 2, 29)));
    assert_eq!(previous_day(ymd(2023, 3, 1)), Some(ymd(2023, 2, 28)));
    assert_eq!(previous_day(ymd(1900, 3, 1)), Some(ymd(1900, 2, 28)));
    assert_eq!(previous_day(ymd(2000, 3, 1)), Some(ymd(2000, 2, 29)));
    assert_eq!(previous_day(ymd(2024, 1, 1)), Some(ymd(2023, 12, 31)));
    assert_eq!(previous_day(ymd(2024, 5, 1)), Some(ymd(2024, 4, 30)));
    assert_eq!(previous_day(ymd(2023, 2, 29)), None);
    assert_eq!(previous_day(ymd(2023, 13, 1)), None);
}

#[test]
fn dates_of_days() {
    assert_eq!(date_of(Day::Today, ymd(2024, 7, 4)), Some(ymd(2024, 7, 4)));
    assert_eq!(date_of(Day::Yesterday, ymd(2024, 7, 4)), Some(ymd(2024, 7, 3)));
}

#[test]
fn date_texts() {
    assert_eq!(date_text(ymd(2024, 3, 5)), "2024-03-05");
    assert_eq!(date_text(ymd(999, 12, 31)), "0999-12-31");
}

#[test]
fn addresses() {
    assert_eq!(
        schedule_url("2024-03-05"),
        "http://statsapi.mlb.com/api/v1/schedule?sportId=1&hydrate=team,linescore&date=2024-03-05"
    );
    assert_eq!(MATCHES_URL, "https://streamed.su/api/matches/baseball");
}
