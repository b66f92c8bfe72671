use endsong::aspect::{Album, Artist, Song};
use endsong::entry::SongEntry;
use endsong::gather;
use endsong::rank::{ranking, sorted_by_plays};
use endsong::trace;
use endsong::trace::{relative_limit, RelativeTo};

fn entry(timestamp: i64, time_played: i64, track: &str, album: &str, artist: &str) -> SongEntry {
    SongEntry {
        timestamp,
        time_played,
        track: track.to_string(),
        album: album.to_string(),
        artist: artist.to_string(),
    }
}

fn sample() -> Vec<SongEntry> {
    vec![
        entry(1, 100, "A", "X", "Art1"),
        entry(2, 200, "B", "X", "Art1"),
        entry(3, 100, "A", "X", "Art1"),
        entry(4, 300, "A", "Y", "Art1"),
        entry(5, 50, "C", "Z", "Art2"),
        entry(6, 300, "A", "Y", "Art1"),
    ]
}

#[test]
fn tallies_in_order_of_first_play() {
    let e = sample();
    assert_eq!(
        gather::songs(&e),
        vec![
            (Song::new("A", "X", "Art1"), 2),
            (Song::new("B", "X", "Art1"), 1),
            (Song::new("A", "Y", "Art1"), 2),
            (Song::new("C", "Z", "Art2"), 1),
        ]
    );
    assert_eq!(
        gather::albums(&e),
        vec![(Album::new("X", "Art1"), 3), (Album::new("Y", "Art1"), 2), (Album::new("Z", "Art2"), 1)]
    );
    assert_eq!(gather::artists(&e), vec![(Artist::new("Art1"), 5), (Artist::new("Art2"), 1)]);
    assert_eq!(
        gather::songs_from(&e, &Album::new("X", "Art1")),
        vec![(Song::new("A", "X", "Art1"), 2), (Song::new("B", "X", "Art1"), 1)]
    );
    assert_eq!(
        gather::albums_from_artist(&e, &Artist::new("Art1")),
        vec![(Album::new("X", "Art1"), 3), (Album::new("Y", "Art1"), 2)]
    );
}

#[test]
fn tally_sums_to_all_plays() {
    let e = sample();
    let total: usize = gather::songs(&e).iter().map(|x| x.1).sum();
    assert_eq!(total, gather::all_plays(&e));
    let total: usize = gather::artists(&e).iter().map(|x| x.1).sum();
    assert_eq!(total, e.len());
}

#[test]
fn plays_and_listening_time() {
    let e = sample();
    assert_eq!(gather::plays(&e, &Artist::new("Art1")), 5);
    assert_eq!(gather::plays(&e, &Song::new("A", "Y", "Art1")), 2);
    assert_eq!(gather::plays(&e, &Artist::new("Nobody")), 0);
    assert_eq!(
        gather::plays_of_many(&e, &[Album::new("X", "Art1"), Album::new("Z", "Art2")]),
        4
    );
    assert_eq!(gather::all_plays(&e), 6);
    assert_eq!(gather::listening_time(&e), 1050);
    assert_eq!(gather::listening_time_checked(&e), Some(1050));
    assert_eq!(gather::listening_time_of(&e, &Artist::new("Art2")), 50);
    assert_eq!(
        gather::listening_time_of_many(&e, &[Song::new("A", "X", "Art1"), Song::new("B", "X", "Art1")]),
        400
    );
    let huge = vec![entry(1, i64::MAX, "A", "X", "Art1"), entry(2, 1, "A", "X", "Art1")];
    assert_eq!(gather::listening_time_checked(&huge), None);
    assert_eq!(gather::listening_time_of_many_checked(&huge, &[Artist::new("Art1")]), None);
}

#[test]
fn songs_summed_across_albums_keeps_the_top_album() {
    let e = sample();
    // "A" has been played twice from "X" and twice from "Y": the
    // alphabetically last album is kept
    assert_eq!(
        gather::songs_summed_across_albums(&e),
        vec![
            (Song::new("A", "Y", "Art1"), 4),
            (Song::new("B", "X", "Art1"), 1),
            (Song::new("C", "Z", "Art2"), 1),
        ]
    );
}

#[test]
fn first_and_last_plays() {
    let e = sample();
    assert_eq!(gather::first_entry_of(&e, &Song::new("A", "X", "Art1")).unwrap().timestamp, 1);
    assert_eq!(gather::last_entry_of(&e, &Album::new("Y", "Art1")).unwrap().timestamp, 6);
    assert!(gather::first_entry_of(&e, &Artist::new("Nobody")).is_none());
    let both = [Song::new("B", "X", "Art1"), Song::new("C", "Z", "Art2")];
    assert_eq!(gather::first_entry_of_many(&e, &both).unwrap().timestamp, 2);
    assert_eq!(gather::last_entry_of_many(&e, &both).unwrap().timestamp, 5);
}

#[test]
fn ranking_by_plays_then_name() {
    let e = sample();
    let sorted = sorted_by_plays(gather::songs(&e), 3);
    assert_eq!(
        sorted,
        vec![
            (Song::new("A", "X", "Art1"), 2),
            (Song::new("A", "Y", "Art1"), 2),
            (Song::new("B", "X", "Art1"), 1),
        ]
    );
    let ranks = ranking(gather::artists(&e));
    assert_eq!(ranks, vec![(Artist::new("Art1"), 5, 1), (Artist::new("Art2"), 1, 2)]);
}

#[test]
fn traces_count_plays() {
    let e = sample();
    let a = Song::new("A", "X", "Art1");
    assert_eq!(trace::absolute(&e, &a), vec![(1, 1), (3, 2)]);
    assert_eq!(trace::absolute_ignore_album(&e, &a), vec![(1, 1), (3, 2), (4, 3), (6, 4)]);
    assert_eq!(
        trace::relative_to_all(&e, &Artist::new("Art2")),
        vec![(5, 1, 5), (6, 1, 6)]
    );
    assert_eq!(
        trace::relative_to_artist(&e, &Album::new("Y", "Art1")),
        vec![(4, 1, 4), (6, 2, 5)]
    );
    assert_eq!(
        trace::relative_to_album(&e, &a),
        vec![(1, 1, 1), (2, 1, 2), (3, 2, 3)]
    );
    // the last point of the absolute trace counts every play
    let points = trace::absolute(&e, &Artist::new("Art1"));
    assert_eq!(points.last().unwrap().1, gather::plays(&e, &Artist::new("Art1")));
}

#[test]
fn relative_limits_of_each_kind() {
    assert_eq!(relative_limit(RelativeTo::All, 5), (5, true));
    assert_eq!(relative_limit(RelativeTo::All, 10), (10, false));
    assert_eq!(relative_limit(RelativeTo::Artist, 150), (100, false));
    assert_eq!(relative_limit(RelativeTo::Artist, 99), (99, true));
    assert_eq!(relative_limit(RelativeTo::Album, 1000), (1000, false));
    assert_eq!(relative_limit(RelativeTo::Album, 0), (0, true));
}
