use vstd::prelude::*;
use vstd::multiset::Multiset;
use vstd::relations::{sorted_by, total_ordering};
use vstd::seq_lib::lemma_sorted_unique;
use crate::model::{Episode, EpisodeView, views};

verus! {

/// Lexicographic order on character sequences, by code point; a proper prefix
/// comes first. This is the order of Rust's `String`.
pub open spec fn chars_le(a: Seq<char>, b: Seq<char>) -> bool
    decreases a.len(),
{
    if a.len() == 0 {
        true
    } else if b.len() == 0 {
        false
    } else if a[0] != b[0] {
        (a[0] as int) < (b[0] as int)
    } else {
        chars_le(a.drop_first(), b.drop_first())
    }
}

/// An absent title comes before every present one.
pub open spec fn title_le(a: Option<Seq<char>>, b: Option<Seq<char>>) -> bool {
    match (a, b) {
        (None, _) => true,
        (Some(_), None) => false,
        (Some(x), Some(y)) => chars_le(x, y),
    }
}

/// Sort key of an optional number: an absent number lies below every `i64`.
pub open spec fn opt_key(o: Option<i64>) -> int {
    match o {
        Some(x) => x as int,
        None => i64::MIN - 1,
    }
}

/// The order of episodes: ascending by aired season, aired episode number,
/// DVD season, DVD episode number and title, in that order of precedence.
pub open spec fn episode_le(a: EpisodeView, b: EpisodeView) -> bool {
    if a.aired_season != b.aired_season {
        a.aired_season < b.aired_season
    } else if a.aired_episode_number != b.aired_episode_number {
        a.aired_episode_number < b.aired_episode_number
    } else if opt_key(a.dvd_season) != opt_key(b.dvd_season) {
        opt_key(a.dvd_season) < opt_key(b.dvd_season)
    } else if opt_key(a.dvd_episode_number) != opt_key(b.dvd_episode_number) {
        opt_key(a.dvd_episode_number) < opt_key(b.dvd_episode_number)
    } else {
        title_le(a.episode_name, b.episode_name)
    }
}

/// [`episode_le`] as a relation value.
pub open spec fn episode_order() -> spec_fn(EpisodeView, EpisodeView) -> bool {
    |a: EpisodeView, b: EpisodeView| episode_le(a, b)
}

/// The episodes in the order of [`episode_le`].
pub open spec fn normalized(s: Seq<EpisodeView>) -> Seq<EpisodeView> {
    s.sort_by(episode_order())
}

proof fn lemma_chars_le_refl(a: Seq<char>)
    ensures
        chars_le(a, a),
    decreases a.len(),
{
    if a.len() > 0 {
        lemma_chars_le_refl(a.drop_first());
    }
}

proof fn lemma_chars_le_antisym(a: Seq<char>, b: Seq<char>)
    requires
        chars_le(a, b),
        chars_le(b, a),
    ensures
        a == b,
    decreases a.len(),
{
    if a.len() > 0 && b.len() > 0 {
        lemma_chars_le_antisym(a.drop_first(), b.drop_first());
        assert(a =~= seq![a[0]] + a.drop_first());
        assert(b =~= seq![b[0]] + b.drop_first());
    } else {
        assert(a =~= b);
    }
}

proof fn lemma_chars_le_trans(a: Seq<char>, b: Seq<char>, c: Seq<char>)
    requires
        chars_le(a, b),
        chars_le(b, c),
    ensures
        chars_le(a, c),
    decreases a.len(),
{
    if a.len() > 0 && b.len() > 0 && c.len() > 0 {
        if a[0] == b[0] && b[0] == c[0] {
            lemma_chars_le_trans(a.drop_first(), b.drop_first(), c.drop_first());
        }
    }
}

proof fn lemma_chars_le_total(a: Seq<char>, b: Seq<char>)
    ensures
        chars_le(a, b) || chars_le(b, a),
    decreases a.len(),
{
    if a.len() > 0 && b.len() > 0 && a[0] == b[0] {
        lemma_chars_le_total(a.drop_first(), b.drop_first());
    }
}

spec fn same_numbers(a: EpisodeView, b: EpisodeView) -> bool {
    &&& a.aired_season == b.aired_season
    &&& a.aired_episode_number == b.aired_episode_number
    &&& opt_key(a.dvd_season) == opt_key(b.dvd_season)
    &&& opt_key(a.dvd_episode_number) == opt_key(b.dvd_episode_number)
}

/// The episode order is a total order.
pub proof fn lemma_episode_order_total()
    ensures
        total_ordering(episode_order()),
{
    let r = episode_order();
    assert forall|x: EpisodeView| #[trigger] r(x, x) by {
        if let Some(t) = x.episode_name {
            lemma_chars_le_refl(t);
        }
    }
    assert forall|x: EpisodeView, y: EpisodeView| #[trigger] r(x, y) && #[trigger] r(y, x) implies x
        == y by {
        if let (Some(s), Some(t)) = (x.episode_name, y.episode_name) {
            lemma_chars_le_antisym(s, t);
        }
    }
    assert forall|x: EpisodeView, y: EpisodeView, z: EpisodeView| #[trigger] r(x, y) && #[trigger] r(
        y,
        z,
    ) implies r(x, z) by {
        if let (Some(s), Some(t), Some(u)) = (x.episode_name, y.episode_name, z.episode_name) {
            if same_numbers(x, y) && same_numbers(y, z) {
                lemma_chars_le_trans(s, t, u);
            }
        }
    }
    assert forall|x: EpisodeView, y: EpisodeView| #[trigger] r(x, y) || #[trigger] r(y, x) by {
        if let (Some(s), Some(t)) = (x.episode_name, y.episode_name) {
            lemma_chars_le_total(s, t);
        }
    }
}

/// The normalized sequence is sorted by the episode order and holds exactly
/// the episodes it was made from.
pub proof fn lemma_normalized_sorted(s: Seq<EpisodeView>)
    ensures
        sorted_by(normalized(s), episode_order()),
        normalized(s).to_multiset() == s.to_multiset(),
{
    lemma_episode_order_total();
    s.lemma_sort_by_ensures(episode_order());
}

/// Normalizing an already normalized sequence leaves it unchanged.
pub proof fn lemma_normalize_idempotent(s: Seq<EpisodeView>)
    ensures
        normalized(normalized(s)) == normalized(s),
{
    let t = normalized(s);
    lemma_normalized_sorted(s);
    lemma_normalized_sorted(t);
    lemma_episode_order_total();
    lemma_sorted_unique(normalized(t), t, episode_order());
}

/// Compares two strings in the order of [`chars_le`].
pub fn str_le(a: &str, b: &str) -> (r: bool)
    ensures
        r == chars_le(a@, b@),
{
    let n = a.unicode_len();
    let m = b.unicode_len();
    let mut i: usize = 0;
    assert(a@.skip(0) =~= a@);
    assert(b@.skip(0) =~= b@);
    while i < n && i < m
        invariant
            i <= n,
            i <= m,
            n == a@.len(),
            m == b@.len(),
            chars_le(a@, b@) == chars_le(a@.skip(i as int), b@.skip(i as int)),
        decreases n - i,
    {
        let x = a.get_char(i);
        let y = b.get_char(i);
        if x != y {
            return (x as u32) < (y as u32);
        }
        assert(a@.skip(i as int).drop_first() =~= a@.skip(i + 1));
        assert(b@.skip(i as int).drop_first() =~= b@.skip(i + 1));
        i += 1;
    }
    i == n
}

/// Whether `a` comes no later than `b` in the episode order.
pub fn episode_precedes(a: &Episode, b: &Episode) -> (r: bool)
    ensures
        r == episode_le(a@, b@),
{
    if a.aired_season != b.aired_season {
        return a.aired_season < b.aired_season;
    }
    if a.aired_episode_number != b.aired_episode_number {
        return a.aired_episode_number < b.aired_episode_number;
    }
    let c = opt_cmp(a.dvd_season, b.dvd_season);
    if c != 0 {
        return c < 0;
    }
    let c = opt_cmp(a.dvd_episode_number, b.dvd_episode_number);
    if c != 0 {
        return c < 0;
    }
    match (&a.episode_name, &b.episode_name) {
        (None, _) => true,
        (Some(_), None) => false,
        (Some(x), Some(y)) => str_le(x.as_str(), y.as_str()),
    }
}

/// Three-way comparison of optional numbers by [`opt_key`].
fn opt_cmp(a: Option<i64>, b: Option<i64>) -> (r: i8)
    ensures
        r < 0 <==> opt_key(a) < opt_key(b),
        r == 0 <==> opt_key(a) == opt_key(b),
{
    match (a, b) {
        (None, None) => 0,
        (None, Some(_)) => -1,
        (Some(_), None) => 1,
        (Some(x), Some(y)) => if x < y {
            -1
        } else if x == y {
            0
        } else {
            1
        },
    }
}

proof fn lemma_insert_multiset<A>(s: Seq<A>, i: int, a: A)
    requires
        0 <= i <= s.len(),
    ensures
        s.insert(i, a).to_multiset() == s.to_multiset().insert(a),
{
    broadcast use vstd::seq_lib::group_to_multiset_ensures;
    broadcast use vstd::multiset::group_multiset_axioms;

    let t = s.insert(i, a);
    assert(t.remove(i) =~= s);
    assert(t.contains(a)) by {
        assert(t[i] == a);
    }
    assert(t.to_multiset() =~= s.to_multiset().insert(a));
}

/// Sorts episodes into the episode order.
pub fn normalize(episodes: Vec<Episode>) -> (r: Vec<Episode>)
    ensures
        views(r@) == normalized(views(episodes@)),
{
    let ghost le = episode_order();
    proof {
        lemma_episode_order_total();
    }
    let mut input = episodes;
    let mut out: Vec<Episode> = Vec::new();
    proof {
        broadcast use vstd::seq_lib::group_to_multiset_ensures;
        broadcast use vstd::multiset::group_multiset_axioms;

        assert(views(out@) =~= Seq::<EpisodeView>::empty());
        assert(views(out@).to_multiset() =~= Multiset::empty());
        assert(views(out@).to_multiset().add(views(input@).to_multiset()) =~= views(
            input@,
        ).to_multiset());
    }
    while input.len() > 0
        invariant
            total_ordering(le),
            le == episode_order(),
            sorted_by(views(out@), le),
            views(out@).to_multiset().add(views(input@).to_multiset()) == views(
                episodes@,
            ).to_multiset(),
        decreases input.len(),
    {
        let ghost before = input@;
        let x = match input.pop() {
            Some(x) => x,
            None => {
                return out;
            },
        };
        proof {
            broadcast use vstd::seq_lib::group_to_multiset_ensures;

            assert(views(before) =~= views(input@).push(x@));
        }
        let mut pos = out.len();
        while pos > 0 && !episode_precedes(&out[pos - 1], &x)
            invariant
                pos <= out@.len(),
                forall|j: int| pos <= j < out@.len() ==> !episode_le(#[trigger] out@[j]@, x@),
            decreases pos,
        {
            pos -= 1;
        }
        let ghost old_out = out@;
        out.insert(pos, x);
        proof {
            let v = views(old_out);
            assert(views(out@) =~= v.insert(pos as int, x@));
            lemma_insert_multiset(v, pos as int, x@);
            assert forall|i: int, j: int| 0 <= i < j < views(out@).len() implies #[trigger] le(
                views(out@)[i],
                views(out@)[j],
            ) by {
                let w = views(out@);
                if j < pos {
                    assert(le(v[i], v[j]));
                } else if j == pos {
                    assert(le(v[pos - 1], x@));
                    if i < pos - 1 {
                        assert(le(v[i], v[pos - 1]));
                    }
                } else if i == pos {
                    assert(!le(v[j - 1], x@));
                } else if i < pos {
                    assert(le(v[i], v[j - 1]));
                } else {
                    assert(le(v[i - 1], v[j - 1]));
                }
            }
            broadcast use vstd::multiset::group_multiset_axioms;

            assert(views(out@).to_multiset().add(views(input@).to_multiset()) =~= v.to_multiset().add(
                views(before).to_multiset(),
            ));
        }
    }
    proof {
        let s = views(episodes@);
        broadcast use vstd::seq_lib::group_to_multiset_ensures;
        broadcast use vstd::multiset::group_multiset_axioms;

        assert(views(input@) =~= Seq::<EpisodeView>::empty());
        assert(views(input@).to_multiset() =~= Multiset::empty());
        assert(views(out@).to_multiset() =~= s.to_multiset());
        s.lemma_sort_by_ensures(le);
        lemma_sorted_unique(views(out@), s.sort_by(le), le);
    }
    out
}

} // verus!
