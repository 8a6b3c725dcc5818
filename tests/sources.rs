use ballgame_streams::json::ResponseError;
use ballgame_streams::sources::{embed_urls, find_sources, stream_requests, Source};

const MATCHES: &str = "[
  {\"title\": \"Chicago Cubs vs St. Louis Cardinals\", \"sources\": [{\"id\": \"cc\", \"source\": \"alpha\"}]},
  {\"title\": \"New York Yankees vs Boston Red Sox\", \"sources\": [{\"id\": \"nyy-bos\", \"source\": \"alpha\"}, {\"id\": \"99\", \"source\": \"bravo\"}]},
  {\"title\": \"New York Yankees vs Boston Red Sox\", \"sources\": []}
]";

#[test]
fn first_match_sources() {
    let s = find_sources(MATCHES, "New York Yankees vs Boston Red Sox").unwrap();
    let pairs: Vec<(&str, &str)> = s.iter().map(|x| (x.kind.as_str(), x.id.as_str())).collect();
    assert_eq!(pairs, vec![("alpha", "nyy-bos"), ("bravo", "99")]);
}

#[test]
fn no_match_gives_no_sources_and_no_requests() {
    let s = find_sources(MATCHES, "new york yankees vs boston red sox").unwrap();
    assert!(s.is_empty());
    assert!(stream_requests(&s).is_empty());
    assert!(find_sources("[]", "A vs B").unwrap().is_empty());
}

#[test]
fn lookup_is_repeatable() {
    let a = find_sources(MATCHES, "Chicago Cubs vs St. Louis Cardinals").unwrap();
    let b = find_sources(MATCHES, "Chicago Cubs vs St. Louis Cardinals").unwrap();
    assert_eq!(a.len(), b.len());
    for (x, y) in a.iter().zip(b.iter()) {
        assert_eq!(x.id, y.id);
        assert_eq!(x.kind, y.kind);
    }
}

#[test]
fn lookup_errors() {
    assert_eq!(find_sources("<html>", "A vs B").err(), Some(ResponseError::NotJson));
    assert_eq!(find_sources("{}", "A vs B").err(), Some(ResponseError::MissingField));
    assert_eq!(find_sources("[{\"sources\": []}]", "A vs B").err(), Some(ResponseError::MissingField));
    assert_eq!(find_sources("[{\"title\": \"A vs B\"}]", "A vs B").err(), Some(ResponseError::MissingField));
    assert_eq!(
        find_sources("[{\"title\": \"A vs B\", \"sources\": [{\"id\": \"1\"}]}]", "A vs B").err(),
        Some(ResponseError::MissingField)
    );
    // a title after the match is not read
    assert!(find_sources("[{\"title\": \"A vs B\", \"sources\": []}, {}]", "A vs B").unwrap().is_empty());
}

#[test]
fn request_per_source_in_order() {
    let s = vec![
        Source { id: "nyy-bos".to_string(), kind: "alpha".to_string() },
        Source { id: "99".to_string(), kind: "bravo".to_string() },
    ];
    assert_eq!(
        stream_requests(&s),
        vec![
            "https://streamed.su/api/stream/alpha/nyy-bos".to_string(),
            "https://streamed.su/api/stream/bravo/99".to_string()
        ]
    );
}

#[test]
fn embed_urls_in_order() {
    let body = "[{\"embedUrl\": \"https://e.example/1\", \"hd\": true}, {\"embedUrl\": \"https://e.example/2\"}]";
    assert_eq!(embed_urls(body).unwrap(), vec!["https://e.example/1".to_string(), "https://e.example/2".to_string()]);
    assert!(embed_urls("[]").unwrap().is_empty());
}

#[test]
fn embed_url_errors() {
    assert_eq!(embed_urls("").err(), Some(ResponseError::NotJson));
    assert_eq!(embed_urls("{\"embedUrl\": \"x\"}").err(), Some(ResponseError::MissingField));
    assert_eq!(embed_urls("[{\"embedUrl\": 5}]").err(), Some(ResponseError::MissingField));
}
