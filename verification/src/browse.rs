//! What the artist and album pages and the artist list of the web
//! interface show: an aspect's plays, listening time and first and last
//! plays, an artist's rank, and the artists whose names match a search.

use vstd::prelude::*;

use crate::aspect::{lemma_keys_lt_total, Artist, Music};
use crate::entry::{between_bounds, SongEntries, SongEntry};
use crate::rank::{ranked_before, sorted_by_plays};
use crate::gather::{
    aspect_views, distinct, first_entry_of, lemma_distinct_facts, views, is_first_where, is_last_where, is_play_of_any, last_entry_of,
    listening_time_of_many_checked, plays, plays_in, time_sums_fit_where, total_time_where,
};

verus! {

/// The statistics of an aspect on its page.
pub struct AspectStats {
    /// Its plays
    pub plays: usize,
    /// The time spent listening to it, in milliseconds
    pub time_played: i64,
    /// Timestamp of its first play
    pub first_listen: i64,
    /// Timestamp of its last play
    pub last_listen: i64,
}

/// The entries that are plays of the aspect `a`.
pub open spec fn plays_of<A: Music>(a: A::V) -> spec_fn(SongEntry) -> bool {
    |e: SongEntry| A::of_entry(e) == a
}

/// `t` is the timestamp of the first entry of `s` that satisfies `p`.
pub open spec fn first_time(t: i64, s: Seq<SongEntry>, p: spec_fn(SongEntry) -> bool) -> bool {
    exists|k: int| {
        &&& 0 <= k < s.len()
        &&& p(#[trigger] s[k])
        &&& t == s[k].timestamp
        &&& forall|j: int| 0 <= j < k ==> !p(#[trigger] s[j])
    }
}

/// `t` is the timestamp of the last entry of `s` that satisfies `p`.
pub open spec fn last_time(t: i64, s: Seq<SongEntry>, p: spec_fn(SongEntry) -> bool) -> bool {
    exists|k: int| {
        &&& 0 <= k < s.len()
        &&& p(#[trigger] s[k])
        &&& t == s[k].timestamp
        &&& forall|j: int| k < j < s.len() ==> !p(#[trigger] s[j])
    }
}

/// The page of `a` can be shown: it has been played in `s`, and its
/// listening time can be summed.
pub open spec fn stats_ok<A: Music>(s: Seq<SongEntry>, a: A::V) -> bool {
    &&& exists|k: int| 0 <= k < s.len() && plays_of::<A>(a)(#[trigger] s[k])
    &&& time_sums_fit_where(s, plays_of::<A>(a))
}

/// `st` are the statistics of `a` in `s`.
pub open spec fn is_stats<A: Music>(st: AspectStats, s: Seq<SongEntry>, a: A::V) -> bool {
    &&& st.plays == plays_in::<A>(s, a)
    &&& st.time_played == total_time_where(s, plays_of::<A>(a))
    &&& first_time(st.first_listen, s, plays_of::<A>(a))
    &&& last_time(st.last_listen, s, plays_of::<A>(a))
}

/// The first or last entry found is a first or last play.
proof fn lemma_found_time(r: Option<&SongEntry>, s: Seq<SongEntry>, p: spec_fn(SongEntry) -> bool, first: bool)
    requires
        first ==> is_first_where(r, s, p),
        !first ==> is_last_where(r, s, p),
        r is Some,
    ensures
        first ==> first_time(r.unwrap().timestamp, s, p),
        !first ==> last_time(r.unwrap().timestamp, s, p),
{
    let e = r.unwrap();
    if first {
        let k = choose|k: int| {
            &&& 0 <= k < s.len()
            &&& *e == #[trigger] s[k]
            &&& p(s[k])
            &&& forall|j: int| 0 <= j < k ==> !p(#[trigger] s[j])
        };
        assert(p(s[k]) && e.timestamp == s[k].timestamp);
    } else {
        let k = choose|k: int| {
            &&& 0 <= k < s.len()
            &&& *e == #[trigger] s[k]
            &&& p(s[k])
            &&& forall|j: int| k < j < s.len() ==> !p(#[trigger] s[j])
        };
        assert(p(s[k]) && e.timestamp == s[k].timestamp);
    }
}

/// Computes the statistics of an artist's or album's page: plays, listening
/// time, and first and last play. `None` if it has not been played or its
/// listening time cannot be summed.
pub fn aspect_stats<A: Music>(entries: &[SongEntry], aspect: &A) -> (r: Option<AspectStats>)
    ensures
        r is Some <==> stats_ok::<A>(entries@, aspect@),
        r matches Some(st) ==> is_stats::<A>(st, entries@, aspect@),
{
    let one = vec![aspect.duplicate()];
    let ghost p = plays_of::<A>(aspect@);
    proof {
        assert(aspect_views(one@) =~= seq![aspect@]);
        assert forall|e: SongEntry| #[trigger] p(e) == is_play_of_any::<A>(e, aspect_views(one@)) by {
            assert(seq![aspect@].contains(A::of_entry(e)) <==> A::of_entry(e) == aspect@) by {
                if A::of_entry(e) == aspect@ {
                    assert(seq![aspect@][0] == aspect@);
                }
            }
        }
        assert(p =~= (|e: SongEntry| is_play_of_any::<A>(e, aspect_views(one@))));
        assert(p =~= (|e: SongEntry| A::of_entry(e) == aspect@));
    }
    let time = match listening_time_of_many_checked(entries, one.as_slice()) {
        Some(t) => t,
        None => return None,
    };
    proof {
        assert(entries@.take(entries@.len() as int) =~= entries@);
        assert(-i64::MAX <= total_time_where(entries@.take(entries@.len() as int), p) <= i64::MAX);
    }
    let n = plays(entries, aspect);
    let first = first_entry_of(entries, aspect);
    let last = last_entry_of(entries, aspect);
    match (first, last) {
        (Some(f), Some(l)) => {
            proof {
                lemma_found_time(first, entries@, p, true);
                lemma_found_time(last, entries@, p, false);
                let k = choose|k: int| {
                    &&& 0 <= k < entries@.len()
                    &&& p(#[trigger] entries@[k])
                    &&& f.timestamp == entries@[k].timestamp
                    &&& forall|j: int| 0 <= j < k ==> !p(#[trigger] entries@[j])
                };
                assert(p(entries@[k]));
            }
            Some(AspectStats { plays: n, time_played: time, first_listen: f.timestamp, last_listen: l.timestamp })
        },
        _ => {
            proof {
                assert(first is None);
                assert forall|k: int| 0 <= k < entries@.len() implies !p(#[trigger] entries@[k]) by {}
            }
            None
        },
    }
}

/// The plays and rank of `artist` in `ranking` (artists with their plays
/// and positions), if it is listed there: the first such entry.
pub fn rank_of(ranking: &Vec<(Artist, usize, usize)>, artist: &Artist) -> (r: Option<(usize, usize)>)
    ensures
        match r {
            Some(x) => exists|i: int| {
                &&& 0 <= i < ranking@.len()
                &&& #[trigger] ranking@[i].0@ == artist@
                &&& x == (ranking@[i].1, ranking@[i].2)
                &&& forall|j: int| 0 <= j < i ==> #[trigger] ranking@[j].0@ != artist@
            },
            None => forall|i: int| 0 <= i < ranking@.len() ==> #[trigger] ranking@[i].0@ != artist@,
        },
{
    let mut i: usize = 0;
    while i < ranking.len()
        invariant
            i <= ranking@.len(),
            forall|j: int| 0 <= j < i ==> #[trigger] ranking@[j].0@ != artist@,
        decreases ranking@.len() - i,
    {
        if ranking[i].0.same_as(artist) {
            return Some((ranking[i].1, ranking[i].2));
        }
        i = i + 1;
    }
    None
}

/// `needle` occurs in `hay`.
pub open spec fn contains_text(hay: Seq<char>, needle: Seq<char>) -> bool {
    exists|i: int| 0 <= i <= hay.len() - needle.len() && #[trigger] hay.subrange(i, i + needle.len()) == needle
}

/// `needle` occurs in `hay` at position `i`.
fn occurs_at(hay: &Vec<char>, needle: &Vec<char>, i: usize) -> (r: bool)
    requires
        i + needle@.len() <= hay@.len(),
    ensures
        r == (hay@.subrange(i as int, i + needle@.len()) == needle@),
{
    let hay_len = hay.len();
    let mut k: usize = 0;
    while k < needle.len()
        invariant
            hay_len == hay@.len(),
            i + needle@.len() <= hay@.len(),
            k <= needle@.len(),
            forall|j: int| 0 <= j < k ==> hay@[i + j] == #[trigger] needle@[j],
        decreases needle@.len() - k,
    {
        assert(i + k < hay@.len());
        if hay[i + k] != needle[k] {
            assert(hay@.subrange(i as int, i + needle@.len())[k as int] != needle@[k as int]);
            return false;
        }
        k = k + 1;
    }
    assert(hay@.subrange(i as int, i + needle@.len()) =~= needle@);
    true
}

/// Whether `needle` occurs in `hay`.
fn has_text(hay: &str, needle: &str) -> (r: bool)
    ensures
        r == contains_text(hay@, needle@),
{
    let h = crate::text::chars_of(hay);
    let n = crate::text::chars_of(needle);
    if n.len() > h.len() {
        return false;
    }
    if n.len() == 0 {
        assert(hay@.subrange(0int, 0int + needle@.len()) =~= needle@);
        return true;
    }
    let h_len = h.len();
    let mut i: usize = 0;
    while i <= h.len() - n.len()
        invariant
            h_len == h@.len(),
            n@.len() >= 1,
            h@ == hay@,
            n@ == needle@,
            n@.len() <= h@.len(),
            i <= h@.len() - n@.len() + 1,
            forall|j: int| 0 <= j < i ==> #[trigger] h@.subrange(j, j + n@.len()) != n@,
        decreases h@.len() - n@.len() + 1 - i,
    {
        if occurs_at(&h, &n, i) {
            return true;
        }
        i = i + 1;
    }
    false
}

/// The artists of `artists` whose lowercased name contains the lowercased
/// `search`, in order.
pub open spec fn artists_matching(artists: Seq<Artist>, search: Seq<char>) -> Seq<Artist>
    decreases artists.len(),
{
    if artists.len() == 0 {
        seq![]
    } else if contains_text(crate::text::lowercase(artists.last().name@), crate::text::lowercase(search)) {
        artists_matching(artists.drop_last(), search).push(artists.last())
    } else {
        artists_matching(artists.drop_last(), search)
    }
}

/// The views of artists.
pub open spec fn artist_views(v: Seq<Artist>) -> Seq<Seq<char>> {
    v.map_values(|a: Artist| a@)
}

/// Returns the artists whose name contains `search`, ignoring case, in order.
pub fn search_artists(artists: &Vec<Artist>, search: &str) -> (r: Vec<Artist>)
    ensures
        artist_views(r@) == artist_views(artists_matching(artists@, search@)),
{
    let lower_search = crate::text::to_lowercase(search);
    let mut r: Vec<Artist> = Vec::new();
    let mut i: usize = 0;
    while i < artists.len()
        invariant
            i <= artists@.len(),
            lower_search@ == crate::text::lowercase(search@),
            artist_views(r@) == artist_views(artists_matching(artists@.take(i as int), search@)),
        decreases artists@.len() - i,
    {
        proof {
            assert(artists@.take(i + 1).drop_last() =~= artists@.take(i as int));
            assert(artists@.take(i + 1).last() == artists@[i as int]);
        }
        let lower = crate::text::to_lowercase(artists[i].name.as_str());
        if has_text(lower.as_str(), lower_search.as_str()) {
            let ghost before = r@;
            r.push(artists[i].duplicate());
            proof {
                let m = artists_matching(artists@.take(i as int), search@);
                assert(artist_views(r@) =~= artist_views(before).push(artists@[i as int]@));
                assert(artist_views(m.push(artists@[i as int])) =~= artist_views(m).push(artists@[i as int]@));
            }
        }
        i = i + 1;
    }
    assert(artists@.take(artists@.len() as int) =~= artists@);
    r
}

/// The order of artists' keys is the order of their names.
proof fn lemma_artist_keys_lt(a: Seq<char>, b: Seq<char>)
    ensures
        crate::text::keys_lt(Artist::order_key(a), Artist::order_key(b)) == crate::text::chars_lt(a, b),
{
    reveal_with_fuel(crate::text::keys_lt, 2);
    let ka = Artist::order_key(a);
    let kb = Artist::order_key(b);
    assert(ka.drop_first() =~= Seq::<Seq<char>>::empty());
    assert(kb.drop_first() =~= Seq::<Seq<char>>::empty());
    assert(ka[0] == a && kb[0] == b);
    crate::text::lemma_chars_lt_irreflexive(a);
}

/// Returns every artist of `entries` once, sorted by name.
pub fn artists_by_name(entries: &[SongEntry]) -> (r: Vec<Artist>)
    ensures
        r@.len() == distinct(views::<Artist>(entries@)).len(),
        forall|i: int| 0 <= i < r@.len() ==> distinct(views::<Artist>(entries@)).contains(#[trigger] r@[i]@),
        forall|i: int, j: int| 0 <= i < j < r@.len() ==> crate::text::chars_lt(#[trigger] r@[i].name@, #[trigger] r@[j].name@),
{
    let tally = crate::gather::artists(entries);
    let ghost d = distinct(views::<Artist>(entries@));
    proof {
        lemma_distinct_facts(views::<Artist>(entries@));
    }
    let mut zeroed: Vec<(Artist, usize)> = Vec::new();
    let mut i: usize = 0;
    while i < tally.len()
        invariant
            i <= tally@.len(),
            tally@.len() == d.len(),
            forall|k: int| 0 <= k < tally@.len() ==> #[trigger] tally@[k].0@ == d[k],
            zeroed@.len() == i,
            forall|k: int| 0 <= k < i ==> #[trigger] zeroed@[k].0@ == d[k] && zeroed@[k].1 == 0,
        decreases tally@.len() - i,
    {
        zeroed.push((tally[i].0.duplicate(), 0));
        i = i + 1;
    }
    let ghost z = zeroed@;
    proof {
        assert(z.no_duplicates()) by {
            assert forall|a: int, b: int| 0 <= a < z.len() && 0 <= b < z.len() && a != b implies z[a] != z[b] by {
                assert(z[a].0@ == d[a] && z[b].0@ == d[b]);
            }
        }
        z.lemma_multiset_has_no_duplicates();
    }
    let n = zeroed.len();
    let sorted = sorted_by_plays(zeroed, n);
    let ghost so = sorted@;
    proof {
        assert forall|a: int, b: int| 0 <= a < b < so.len() implies so[a].0@ != so[b].0@ by {
            assert(z.contains(so[a]) && z.contains(so[b]));
            let ka = choose|k: int| 0 <= k < z.len() && z[k] == so[a];
            let kb = choose|k: int| 0 <= k < z.len() && z[k] == so[b];
            if so[a].0@ == so[b].0@ {
                assert(d[ka] == d[kb]);
                assert(ka == kb);
                assert(so[a] == so[b]);
                so.to_multiset_ensures();
                assert(so =~= so.take(b).push(so[b]) + so.skip(b + 1));
                vstd::seq_lib::lemma_multiset_commutative(so.take(b).push(so[b]), so.skip(b + 1));
                so.take(b).to_multiset_ensures();
                assert(so.take(b).contains(so[b])) by {
                    assert(so.take(b)[a] == so[a]);
                }
                assert(so.take(b).to_multiset().count(so[b]) >= 1);
                assert(so.take(b).push(so[b]).to_multiset().count(so[b]) >= 2);
                assert(so.to_multiset().count(so[b]) >= 2);
                assert(z.to_multiset().count(so[b]) <= 1);
            }
        }
    }
    let mut r: Vec<Artist> = Vec::new();
    let mut j: usize = 0;
    while j < sorted.len()
        invariant
            so == sorted@,
            j <= so.len(),
            r@.len() == j,
            forall|k: int| 0 <= k < j ==> #[trigger] r@[k]@ == so[k].0@,
        decreases so.len() - j,
    {
        r.push(sorted[j].0.duplicate());
        j = j + 1;
    }
    proof {
        assert forall|k: int| 0 <= k < r@.len() implies d.contains(#[trigger] r@[k]@) by {
            assert(z.contains(so[k]));
            let kk = choose|x: int| 0 <= x < z.len() && z[x] == so[k];
            assert(d[kk] == r@[k]@);
        }
        assert forall|a: int, b: int| 0 <= a < b < r@.len() implies crate::text::chars_lt(#[trigger] r@[a].name@, #[trigger] r@[b].name@) by {
            assert(!ranked_before(so[b], so[a]));
            assert(z.contains(so[a]) && z.contains(so[b]));
            let ka = choose|x: int| 0 <= x < z.len() && z[x] == so[a];
            let kb = choose|x: int| 0 <= x < z.len() && z[x] == so[b];
            assert(so[a].1 == 0 && so[b].1 == 0);
            Artist::lemma_order_key_injective(so[a].0@, so[b].0@);
            lemma_keys_lt_total(Artist::order_key(so[a].0@), Artist::order_key(so[b].0@));
            lemma_artist_keys_lt(so[a].0@, so[b].0@);
            lemma_artist_keys_lt(so[b].0@, so[a].0@);
            assert(so[a].0@ != so[b].0@);
            assert(Artist::order_key(so[a].0@) != Artist::order_key(so[b].0@));
            assert(crate::text::keys_lt(Artist::order_key(so[a].0@), Artist::order_key(so[b].0@)));
            assert(r@[a]@ == so[a].0@ && r@[b]@ == so[b].0@);
        }
    }
    r
}

/// Why the listening history of a period cannot be shown.
#[derive(Clone, Copy, Debug, PartialEq, Eq)]
pub enum HistoryError {
    /// The end of the period is not after its start
    WrongOrder,
    /// Nothing has been played during the period
    Empty,
}

/// Returns the entries of the listening history from `start` to `end`
/// (see [`SongEntries::between`]).
pub fn history_entries<'a>(entries: &'a SongEntries, start: i64, end: i64) -> (r: Result<&'a [SongEntry], HistoryError>)
    requires
        entries.wf(),
        entries@.len() > 0,
    ensures
        end <= start ==> r == Err::<&[SongEntry], HistoryError>(HistoryError::WrongOrder),
        start < end ==> {
            let b = between_bounds(entries@, start as int, end as int);
            &&& b.0 == b.1 ==> r == Err::<&[SongEntry], HistoryError>(HistoryError::Empty)
            &&& b.0 != b.1 ==> r is Ok && r.unwrap()@ == entries@.subrange(b.0, b.1)
        },
{
    if end <= start {
        return Err(HistoryError::WrongOrder);
    }
    let within = entries.between(start, end);
    if within.len() == 0 {
        Err(HistoryError::Empty)
    } else {
        Ok(within)
    }
}

} // verus!
