use tvdb_episodes::model::Episode;
use tvdb_episodes::order::{episode_precedes, normalize, str_le};

fn ep(s: i64, e: i64, ds: Option<i64>, de: Option<i64>, t: Option<&str>) -> Episode {
    Episode {
        aired_season: s,
        aired_episode_number: e,
        dvd_season: ds,
        dvd_episode_number: de,
        episode_name: t.map(|x| x.to_string()),
    }
}

#[test]
fn normalize_sorts_by_full_tuple() {
    let input = vec![
        ep(2, 1, None, None, None),
        ep(1, 2, Some(1), Some(1), Some("b")),
        ep(1, 2, Some(1), Some(1), Some("a")),
        ep(1, 2, Some(1), None, None),
        ep(1, 2, None, Some(9), None),
        ep(1, 2, Some(1), Some(1), None),
        ep(1, 1, Some(7), None, None),
    ];
    let expected = vec![
        ep(1, 1, Some(7), None, None),
        ep(1, 2, None, Some(9), None),
        ep(1, 2, Some(1), None, None),
        ep(1, 2, Some(1), Some(1), None),
        ep(1, 2, Some(1), Some(1), Some("a")),
        ep(1, 2, Some(1), Some(1), Some("b")),
        ep(2, 1, None, None, None),
    ];
    assert_eq!(normalize(input), expected);
}

#[test]
fn normalize_twice_changes_nothing() {
    let input = vec![
        ep(3, 1, None, None, Some("x")),
        ep(-1, 4, Some(2), None, None),
        ep(3, 1, None, None, Some("w")),
        ep(3, 1, None, None, Some("w")),
    ];
    let once = normalize(input);
    let twice = normalize(once.clone());
    assert_eq!(once, twice);
    assert_eq!(once[0].aired_season, -1);
    assert_eq!(once.len(), 4);
}

#[test]
fn normalize_matches_derived_order() {
    let input = vec![
        ep(1, 10, None, None, Some("Zed")),
        ep(1, 9, None, None, Some("abc")),
        ep(1, 10, None, None, Some("Z")),
        ep(0, 0, None, None, None),
    ];
    let key = |e: &Episode| {
        (
            e.aired_season,
            e.aired_episode_number,
            e.dvd_season,
            e.dvd_episode_number,
            e.episode_name.clone(),
        )
    };
    let mut expected = input.clone();
    expected.sort_by_key(key);
    assert_eq!(normalize(input), expected);
}

#[test]
fn normalize_empty() {
    assert!(normalize(vec![]).is_empty());
}

#[test]
fn string_order_is_by_code_point_with_prefix_first() {
    assert!(str_le("", ""));
    assert!(str_le("ab", "abc"));
    assert!(!str_le("abc", "ab"));
    assert!(str_le("B", "a"));
    assert!(!str_le("b", "a"));
    assert!(str_le("z", "\u{e9}"));
}

#[test]
fn absent_title_precedes_present_one() {
    let a = ep(1, 1, None, None, None);
    let b = ep(1, 1, None, None, Some(""));
    assert!(episode_precedes(&a, &b));
    assert!(!episode_precedes(&b, &a));
    assert!(episode_precedes(&a, &a));
}
