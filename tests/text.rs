use tvdb_episodes::model::{Episode, EpisodeOrdering};
use tvdb_episodes::text::{
    display_numbers, format_episode, format_label, listing, pad_number, replace_char,
    replace_chars, sanitize,
};

fn ep(s: i64, e: i64, ds: Option<i64>, de: Option<i64>, t: Option<&str>) -> Episode {
    Episode {
        aired_season: s,
        aired_episode_number: e,
        dvd_season: ds,
        dvd_episode_number: de,
        episode_name: t.map(|x| x.to_string()),
    }
}

#[test]
fn sanitize_composes_left_to_right() {
    assert_eq!(sanitize("A/B:C"), "A-B -C");
}

#[test]
fn sanitize_each_rule() {
    assert_eq!(sanitize("a\\b"), "a-b");
    assert_eq!(sanitize("a/b"), "a-b");
    assert_eq!(sanitize("a:b"), "a -b");
    assert_eq!(sanitize("a*b"), "a-b");
    assert_eq!(sanitize("a?b"), "ab");
    assert_eq!(sanitize("a\"b"), "ab");
    assert_eq!(sanitize("a<b"), "a\u{2190}b");
    assert_eq!(sanitize("a>b"), "a\u{2192}b");
    assert_eq!(sanitize("a|b"), "a-b");
}

#[test]
fn sanitize_is_deterministic_and_keeps_plain_text() {
    let t = "What? Now: <Part 1|2>";
    assert_eq!(sanitize(t), sanitize(t));
    assert_eq!(sanitize(t), "What Now - \u{2190}Part 1-2\u{2192}");
    assert_eq!(sanitize("Plain title"), "Plain title");
    assert_eq!(sanitize(""), "");
}

#[test]
fn replace_chars_on_owned_string() {
    assert_eq!(replace_chars("Who's Next?".to_string()), "Who's Next");
}

#[test]
fn replace_char_replaces_every_occurrence() {
    assert_eq!(replace_char("a-b-c", '-', "+="), "a+=b+=c");
    assert_eq!(replace_char("abc", 'x', "y"), "abc");
}

#[test]
fn pad_number_fills_to_two_digits() {
    assert_eq!(pad_number(0), "00");
    assert_eq!(pad_number(5), "05");
    assert_eq!(pad_number(12), "12");
    assert_eq!(pad_number(123), "123");
    assert_eq!(pad_number(-1), "-1");
    assert_eq!(pad_number(-42), "-42");
    assert_eq!(pad_number(i64::MAX), "9223372036854775807");
    assert_eq!(pad_number(i64::MIN), "-9223372036854775808");
}

#[test]
fn label_without_title() {
    assert_eq!(format_label("Show", 1, 2, ""), "Show - s01e02");
}

#[test]
fn label_with_title() {
    assert_eq!(format_label("Show", 10, 3, "Pilot"), "Show - s10e03 - Pilot");
}

#[test]
fn dvd_numbers_fall_back_to_aired() {
    let e = ep(2, 5, None, Some(3), None);
    assert_eq!(display_numbers(&e, EpisodeOrdering::Dvd), (2, 3));
    assert_eq!(display_numbers(&e, EpisodeOrdering::Aired), (2, 5));
    let f = ep(2, 5, Some(1), None, None);
    assert_eq!(display_numbers(&f, EpisodeOrdering::Dvd), (1, 5));
}

#[test]
fn dvd_fallback_label() {
    let e = ep(2, 5, None, Some(3), None);
    assert_eq!(format_episode("Show", &e, EpisodeOrdering::Dvd), "Show - s02e03");
}

#[test]
fn episode_title_emptied_by_sanitizing_is_left_out() {
    let e = ep(1, 1, None, None, Some("??"));
    assert_eq!(format_episode("S", &e, EpisodeOrdering::Aired), "S - s01e01");
}

#[test]
fn listing_sorts_and_sanitizes() {
    let eps = vec![
        ep(2, 1, None, None, Some("Return")),
        ep(1, 2, None, None, Some("Part: Two")),
        ep(1, 1, None, None, None),
    ];
    let lines = listing("Who/What", eps, EpisodeOrdering::Aired);
    assert_eq!(
        lines,
        vec![
            "Who-What - s01e01".to_string(),
            "Who-What - s01e02 - Part - Two".to_string(),
            "Who-What - s02e01 - Return".to_string(),
        ]
    );
}

#[test]
fn listing_of_nothing_is_empty() {
    assert!(listing("S", vec![], EpisodeOrdering::Dvd).is_empty());
}
