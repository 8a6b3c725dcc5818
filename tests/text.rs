use ballgame_streams::text::{correlation_key, decimal_text, format_title, same_text, stream_url};

#[test]
fn title_format() {
    assert_eq!(format_title("NYY", 3, "BOS", 2, "Bottom", "7th"), "NYY (3) vs BOS (2) | Bottom of 7th");
    assert_eq!(format_title("LAD", 10, "SF", 0, "Top", "9th"), "LAD (10) vs SF (0) | Top of 9th");
    assert_eq!(format_title("A", 0, "B", 0, "bottom", "1st"), "A (0) vs B (0) | Top of 1st");
}

#[test]
fn title_is_repeatable() {
    let a = format_title("NYY", 3, "BOS", 2, "Bottom", "7th");
    let b = format_title("NYY", 3, "BOS", 2, "Bottom", "7th");
    assert_eq!(a.as_bytes(), b.as_bytes());
}

#[test]
fn key_format() {
    assert_eq!(correlation_key("New York Yankees", "Boston Red Sox"), "New York Yankees vs Boston Red Sox");
    assert_eq!(correlation_key("", ""), " vs ");
}

#[test]
fn decimals() {
    assert_eq!(decimal_text(0), "0");
    assert_eq!(decimal_text(7), "7");
    assert_eq!(decimal_text(10), "10");
    assert_eq!(decimal_text(1234567890), "1234567890");
    assert_eq!(decimal_text(u64::MAX), "18446744073709551615");
}

#[test]
fn stream_address() {
    assert_eq!(stream_url("alpha", "abc-123"), "https://streamed.su/api/stream/alpha/abc-123");
}

#[test]
fn text_equality() {
    assert!(same_text("Bottom", "Bottom"));
    assert!(!same_text("Bottom", "bottom"));
    assert!(!same_text("", " "));
}
