use tvdb_episodes::client::{
    authenticate, classify, format_status, is_header_value, login_url, needs_choice,
    parse_target, resolve_search, BASE_PATH,
};
use tvdb_episodes::model::{ClientError, Series};

fn series(id: u64, name: &str) -> Series {
    Series { id, series_name: name.to_string() }
}

#[test]
fn login_ok_keeps_token() {
    let s = authenticate(200, Some("tok-123".to_string())).unwrap();
    assert_eq!(s.token(), "tok-123");
    assert_eq!(s.authorization(), "Bearer tok-123");
}

#[test]
fn login_refused_is_invalid_key() {
    assert!(matches!(authenticate(401, Some("t".to_string())), Err(ClientError::InvalidAPIKey)));
    assert!(matches!(authenticate(500, None), Err(ClientError::InvalidAPIKey)));
}

#[test]
fn login_undecodable_body() {
    assert!(matches!(authenticate(200, None), Err(ClientError::DecodeError)));
}

#[test]
fn classify_statuses() {
    assert_eq!(classify(200, Some(5u8)), Ok(5u8));
    assert_eq!(classify::<u8>(200, None), Err(ClientError::DecodeError));
    assert_eq!(classify(404, Some(5u8)), Err(ClientError::HTTPError(404)));
    assert_eq!(classify::<u8>(503, None), Err(ClientError::HTTPError(503)));
}

#[test]
fn error_messages() {
    assert_eq!(ClientError::HTTPError(404).message(), "Response Code 404 Not Found");
    assert_eq!(ClientError::HTTPError(200).message(), "Response Code 200 OK");
    assert_eq!(ClientError::HTTPError(599).message(), "Response Code 599 <unknown status code>");
    assert_eq!(ClientError::InvalidHeaderValue.message(), "failed to parse header value");
    assert_eq!(ClientError::InvalidAPIKey.message(), "Invalid API Key");
}

#[test]
fn single_match_is_taken() {
    assert_eq!(resolve_search(&vec![series(81189, "Breaking Bad")]), Some(81189));
}

#[test]
fn several_or_no_matches_need_a_choice() {
    assert_eq!(resolve_search(&vec![series(1, "A"), series(2, "B")]), None);
    assert_eq!(resolve_search(&vec![]), None);
}

#[test]
fn search_request_includes_only_given_filters() {
    let s = authenticate(200, Some("k".to_string())).unwrap();
    let r = s.search_request(Some("Lost"), None, None, Some("lost"), Some("en")).unwrap();
    assert_eq!(r.url, format!("{BASE_PATH}/search/series"));
    assert_eq!(
        r.query,
        vec![
            ("name".to_string(), "Lost".to_string()),
            ("slug".to_string(), "lost".to_string())
        ]
    );
    assert_eq!(r.accept_language, Some("en".to_string()));
    assert_eq!(r.authorization, "Bearer k");
    let all = s.search_request(Some("a"), Some("b"), Some("c"), Some("d"), None).unwrap();
    let keys: Vec<&str> = all.query.iter().map(|p| p.0.as_str()).collect();
    assert_eq!(keys, vec!["name", "imdbId", "zap2itId", "slug"]);
    assert_eq!(all.accept_language, None);
}

#[test]
fn series_and_episode_requests() {
    let s = authenticate(200, Some("k".to_string())).unwrap();
    let r = s.series_request(73739, Some("de")).unwrap();
    assert_eq!(r.url, "https://api.thetvdb.com/series/73739");
    assert!(r.query.is_empty());
    assert_eq!(r.accept_language, Some("de".to_string()));
    let p = s.episodes_request(42, 3);
    assert_eq!(p.url, "https://api.thetvdb.com/series/42/episodes");
    assert_eq!(p.query, vec![("page".to_string(), "3".to_string())]);
    assert_eq!(p.authorization, "Bearer k");
}

#[test]
fn request_addresses_parse() {
    let s = authenticate(200, Some("k".to_string())).unwrap();
    let r = s.episodes_request(42, 1);
    let u = parse_target(&r.url).unwrap();
    assert_eq!(u.host_str(), Some("api.thetvdb.com"));
    assert_eq!(u.path(), "/series/42/episodes");
    assert_eq!(parse_target(&login_url()).unwrap().path(), "/login");
}

#[test]
fn bad_address_is_invalid_url() {
    assert!(matches!(parse_target("not a url"), Err(ClientError::InvalidUrl)));
    assert!(matches!(parse_target("/series/1"), Err(ClientError::InvalidUrl)));
}

#[test]
fn status_text_with_given_reason() {
    assert_eq!(format_status(418, Some("I'm a teapot")), "Response Code 418 I'm a teapot");
    assert_eq!(format_status(299, None), "Response Code 299 <unknown status code>");
}

#[test]
fn choice_needed_only_for_several_matches() {
    assert!(!needs_choice(&vec![]));
    assert!(!needs_choice(&vec![series(1, "A")]));
    assert!(needs_choice(&vec![series(1, "A"), series(2, "B")]));
}

#[test]
fn header_values() {
    assert!(is_header_value("en"));
    assert!(is_header_value("de-DE\t;q=0.9 \u{e9}"));
    assert!(is_header_value(""));
    assert!(!is_header_value("e\nn"));
    assert!(!is_header_value("x\u{7f}"));
    assert!(!is_header_value("\u{1f}"));
}

#[test]
fn invalid_language_is_refused() {
    let s = authenticate(200, Some("k".to_string())).unwrap();
    assert!(matches!(
        s.search_request(Some("Lost"), None, None, None, Some("en\r\n")),
        Err(ClientError::InvalidHeaderValue)
    ));
    assert!(matches!(s.series_request(1, Some("\n")), Err(ClientError::InvalidHeaderValue)));
    assert!(s.series_request(1, None).is_ok());
}

#[test]
fn token_that_breaks_the_header_is_refused() {
    assert!(matches!(
        authenticate(200, Some("a\nb".to_string())),
        Err(ClientError::InvalidHeaderValue)
    ));
}
