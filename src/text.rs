use vstd::prelude::*;
use crate::model::{Episode, EpisodeOrdering, EpisodeView, views};
use crate::order::{normalize, normalized};

verus! {

/// `s` with every occurrence of `from` replaced by `to`.
pub open spec fn replaced(s: Seq<char>, from: char, to: Seq<char>) -> Seq<char>
    decreases s.len(),
{
    if s.len() == 0 {
        seq![]
    } else {
        replaced(s.drop_last(), from, to) + if s.last() == from {
            to
        } else {
            seq![s.last()]
        }
    }
}

/// The filename-safe form of a name: nine replacements, each applied to the
/// result of the one before.
pub open spec fn sanitized(s: Seq<char>) -> Seq<char> {
    let s = replaced(s, '\\', seq!['-']);
    let s = replaced(s, '/', seq!['-']);
    let s = replaced(s, ':', seq![' ', '-']);
    let s = replaced(s, '*', seq!['-']);
    let s = replaced(s, '?', seq![]);
    let s = replaced(s, '"', seq![]);
    let s = replaced(s, '<', seq!['\u{2190}']);
    let s = replaced(s, '>', seq!['\u{2192}']);
    replaced(s, '|', seq!['-'])
}

/// The character of a decimal digit.
pub open spec fn digit_char(d: int) -> char {
    seq!['0', '1', '2', '3', '4', '5', '6', '7', '8', '9'][d]
}

/// The decimal digits of `n`, most significant first, without leading zeros.
pub open spec fn decimal(n: nat) -> Seq<char>
    decreases n,
{
    if n < 10 {
        seq![digit_char(n as int)]
    } else {
        decimal(n / 10).push(digit_char((n % 10) as int))
    }
}

/// `n` in decimal, with a leading minus sign when negative.
pub open spec fn signed_decimal(n: int) -> Seq<char> {
    if n < 0 {
        seq!['-'] + decimal((-n) as nat)
    } else {
        decimal(n as nat)
    }
}

/// `n` in decimal, filled with zeros on the left to at least two characters.
/// The decimal form has at least one character, so one zero is the most added.
pub open spec fn padded(n: int) -> Seq<char> {
    let s = signed_decimal(n);
    if s.len() < 2 {
        seq!['0'] + s
    } else {
        s
    }
}

/// `"{series} - s{season:02}e{episode:02}"`, followed by `" - {title}"` when the
/// title is not empty.
pub open spec fn label(series: Seq<char>, season: int, episode: int, title: Seq<char>) -> Seq<
    char,
> {
    let base = series + seq![' ', '-', ' ', 's'] + padded(season) + seq!['e'] + padded(episode);
    if title.len() == 0 {
        base
    } else {
        base + seq![' ', '-', ' '] + title
    }
}

/// The season and episode number an episode is shown with.
pub open spec fn shown_numbers(e: EpisodeView, mode: EpisodeOrdering) -> (i64, i64) {
    match mode {
        EpisodeOrdering::Aired => (e.aired_season, e.aired_episode_number),
        EpisodeOrdering::Dvd => (
            match e.dvd_season {
                Some(s) => s,
                None => e.aired_season,
            },
            match e.dvd_episode_number {
                Some(n) => n,
                None => e.aired_episode_number,
            },
        ),
    }
}

/// The title of an episode, empty where it has none.
pub open spec fn title_or_empty(t: Option<Seq<char>>) -> Seq<char> {
    match t {
        Some(s) => s,
        None => seq![],
    }
}

/// The listing line of one episode, given the already sanitized series name.
pub open spec fn episode_line(series: Seq<char>, e: EpisodeView, mode: EpisodeOrdering) -> Seq<
    char,
> {
    let (season, episode) = shown_numbers(e, mode);
    label(series, season as int, episode as int, sanitized(title_or_empty(e.episode_name)))
}

/// Relies on `String::push`: the character is appended at the end.
#[verifier::external_body]
fn push_char(s: &mut String, c: char)
    ensures
        final(s)@ == old(s)@.push(c),
{
    s.push(c)
}

/// Replaces every occurrence of `from` in `s` by `to`.
pub fn replace_char(s: &str, from: char, to: &str) -> (r: String)
    ensures
        r@ == replaced(s@, from, to@),
{
    let n = s.unicode_len();
    let mut r = String::new();
    let mut i: usize = 0;
    while i < n
        invariant
            i <= n,
            n == s@.len(),
            r@ == replaced(s@.take(i as int), from, to@),
        decreases n - i,
    {
        let c = s.get_char(i);
        assert(s@.take(i + 1).drop_last() =~= s@.take(i as int));
        if c == from {
            r.append(to);
        } else {
            push_char(&mut r, c);
            assert(r@ =~= replaced(s@.take(i as int), from, to@) + seq![c]);
        }
        i += 1;
    }
    assert(s@.take(n as int) =~= s@);
    r
}

/// The filename-safe form of `s`.
pub fn sanitize(s: &str) -> (r: String)
    ensures
        r@ == sanitized(s@),
{
    proof {
        reveal_strlit("-");
        reveal_strlit(" -");
        reveal_strlit("");
        reveal_strlit("\u{2190}");
        reveal_strlit("\u{2192}");
    }
    assert("-"@ =~= seq!['-']);
    assert(" -"@ =~= seq![' ', '-']);
    assert(""@ =~= Seq::<char>::empty());
    assert("\u{2190}"@ =~= seq!['\u{2190}']);
    assert("\u{2192}"@ =~= seq!['\u{2192}']);
    let t = replace_char(s, '\\', "-");
    let t = replace_char(t.as_str(), '/', "-");
    let t = replace_char(t.as_str(), ':', " -");
    let t = replace_char(t.as_str(), '*', "-");
    let t = replace_char(t.as_str(), '?', "");
    let t = replace_char(t.as_str(), '"', "");
    let t = replace_char(t.as_str(), '<', "\u{2190}");
    let t = replace_char(t.as_str(), '>', "\u{2192}");
    replace_char(t.as_str(), '|', "-")
}

/// The filename-safe form of an episode or series name.
pub fn replace_chars(episode: String) -> (r: String)
    ensures
        r@ == sanitized(episode@),
{
    sanitize(episode.as_str())
}

fn digit(d: u64) -> (c: char)
    requires
        d < 10,
    ensures
        c == digit_char(d as int),
{
    let digits = "0123456789";
    proof {
        reveal_strlit("0123456789");
    }
    assert(digits@ =~= seq!['0', '1', '2', '3', '4', '5', '6', '7', '8', '9']);
    digits.get_char(d as usize)
}

/// Appends the decimal digits of `n`.
pub(crate) fn push_decimal(out: &mut String, n: u64)
    ensures
        final(out)@ == old(out)@ + decimal(n as nat),
    decreases n,
{
    if n >= 10 {
        push_decimal(out, n / 10);
    }
    push_char(out, digit(n % 10));
    assert(final(out)@ =~= old(out)@ + decimal(n as nat));
}

/// `n` in decimal, zero-filled on the left to at least two characters.
pub fn pad_number(n: i64) -> (r: String)
    ensures
        r@ == padded(n as int),
{
    let mut s = String::new();
    if n < 0 {
        push_char(&mut s, '-');
        let m = (0 - (n as i128)) as u64;
        push_decimal(&mut s, m);
        assert(s@ =~= signed_decimal(n as int));
    } else {
        push_decimal(&mut s, n as u64);
        assert(s@ =~= signed_decimal(n as int));
    }
    if s.as_str().unicode_len() < 2 {
        let mut r = String::new();
        push_char(&mut r, '0');
        r.append(s.as_str());
        assert(r@ =~= padded(n as int));
        r
    } else {
        s
    }
}

/// The label of an episode: `"{series} - s{season:02}e{episode:02}"`, with
/// `" - {title}"` added when the title is not empty.
pub fn format_label(series: &str, season: i64, episode: i64, title: &str) -> (r: String)
    ensures
        r@ == label(series@, season as int, episode as int, title@),
{
    proof {
        reveal_strlit(" - s");
        reveal_strlit("e");
        reveal_strlit(" - ");
    }
    assert(" - s"@ =~= seq![' ', '-', ' ', 's']);
    assert("e"@ =~= seq!['e']);
    assert(" - "@ =~= seq![' ', '-', ' ']);
    let mut r = String::from_str(series);
    r.append(" - s");
    let s = pad_number(season);
    r.append(s.as_str());
    r.append("e");
    let e = pad_number(episode);
    r.append(e.as_str());
    if title.unicode_len() > 0 {
        r.append(" - ");
        r.append(title);
    }
    assert(r@ =~= label(series@, season as int, episode as int, title@));
    r
}

/// The season and episode number an episode is shown with under `mode`.
pub fn display_numbers(e: &Episode, mode: EpisodeOrdering) -> (r: (i64, i64))
    ensures
        r == shown_numbers(e@, mode),
{
    match mode {
        EpisodeOrdering::Aired => (e.aired_season, e.aired_episode_number),
        EpisodeOrdering::Dvd => (
            match e.dvd_season {
                Some(s) => s,
                None => e.aired_season,
            },
            match e.dvd_episode_number {
                Some(n) => n,
                None => e.aired_episode_number,
            },
        ),
    }
}

/// The listing line of one episode, given the already sanitized series name.
pub fn format_episode(series: &str, e: &Episode, mode: EpisodeOrdering) -> (r: String)
    ensures
        r@ == episode_line(series@, e@, mode),
{
    let (season, number) = display_numbers(e, mode);
    let title = match &e.episode_name {
        Some(t) => sanitize(t.as_str()),
        None => sanitize(""),
    };
    proof {
        reveal_strlit("");
    }
    assert(""@ =~= Seq::<char>::empty());
    format_label(series, season, number, title.as_str())
}

/// The episode listing of a series: the episodes in the episode order, one
/// line each, with the series name and every title made filename-safe.
pub fn listing(series_name: &str, episodes: Vec<Episode>, mode: EpisodeOrdering) -> (r: Vec<
    String,
>)
    ensures
        r@.len() == episodes@.len(),
        forall|i: int|
            0 <= i < r@.len() ==> #[trigger] r@[i]@ == episode_line(
                sanitized(series_name@),
                normalized(views(episodes@))[i],
                mode,
            ),
{
    let series = sanitize(series_name);
    let sorted = normalize(episodes);
    proof {
        broadcast use vstd::seq_lib::group_to_multiset_ensures;

        crate::order::lemma_normalized_sorted(views(episodes@));
        let v = views(episodes@);
        assert(normalized(v).to_multiset().len() == v.to_multiset().len());
        assert(views(sorted@).len() == views(episodes@).len());
    }
    let mut lines: Vec<String> = Vec::new();
    let mut i: usize = 0;
    while i < sorted.len()
        invariant
            i <= sorted@.len(),
            views(sorted@) == normalized(views(episodes@)),
            lines@.len() == i,
            forall|j: int|
                0 <= j < i ==> #[trigger] lines@[j]@ == episode_line(
                    series@,
                    views(sorted@)[j],
                    mode,
                ),
        decreases sorted@.len() - i,
    {
        let line = format_episode(series.as_str(), &sorted[i], mode);
        lines.push(line);
        i += 1;
    }
    lines
}

} // verus!
