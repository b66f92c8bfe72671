use endsong::aspect::{Album, Artist};
use endsong::entry::{SongEntries, SongEntry};
use endsong::gather;
use endsong::parse::{parse, EntryError, RawEntry};
use endsong::summary::{artist_summary, entries_of, sorted_playcount_list};

fn raw(ts: &str, ms: i64, track: &str, album: &str, artist: &str) -> RawEntry {
    RawEntry {
        ts: ts.to_string(),
        ms_played: ms,
        master_metadata_track_name: Some(track.to_string()),
        master_metadata_album_artist_name: Some(artist.to_string()),
        master_metadata_album_album_name: Some(album.to_string()),
    }
}

fn entry(timestamp: i64, time_played: i64, track: &str, album: &str, artist: &str) -> SongEntry {
    SongEntry {
        timestamp,
        time_played,
        track: track.to_string(),
        album: album.to_string(),
        artist: artist.to_string(),
    }
}

#[test]
fn summary_of_an_artist() {
    let mut raws = Vec::new();
    for day in 1..=12 {
        let track = if day % 3 == 0 { "Hit" } else { "Other" };
        raws.push(raw(&format!("2020-01-{day:02}T10:00:00Z"), 1000, track, "First", "Band"));
    }
    raws.push(raw("2020-01-20T10:00:00Z", 500, "Hit", "Second", "Band"));
    raws.push(raw("2020-01-21T10:00:00Z", 700, "Solo", "Alone", "Someone"));
    let entries = SongEntries::new(&raws).unwrap();
    let summary = artist_summary(&entries, &Artist::new("Band")).unwrap();
    assert_eq!(summary.plays, 13);
    assert_eq!(summary.time_played, 12_500);
    assert_eq!(summary.songs, vec![("Other".to_string(), 8), ("Hit".to_string(), 5)]);
    assert_eq!(summary.albums, vec![("First".to_string(), 12), ("Second".to_string(), 1)]);
    assert_eq!(summary.first_listens.len(), 10);
    assert_eq!(summary.first_listens[0].timestamp, entries.first_date());
    assert_eq!(summary.last_listens.len(), 10);
    assert_eq!(summary.last_listens[0].album, "Second");
}

#[test]
fn summary_overflow() {
    let entries = SongEntries::new(&[
        raw("2020-01-01T10:00:00Z", i64::MAX, "A", "X", "Band"),
        raw("2020-01-02T10:00:00Z", 1, "A", "X", "Band"),
    ])
    .unwrap();
    assert!(artist_summary(&entries, &Artist::new("Band")).is_none());
    assert!(artist_summary(&entries, &Artist::new("Nobody")).is_some());
}

#[test]
fn entries_and_playcount_lists() {
    let e = vec![
        entry(1, 10, "A", "X", "Art"),
        entry(2, 10, "B", "Y", "Other"),
        entry(3, 10, "C", "Y", "Art"),
    ];
    let own = entries_of(&e, &Artist::new("Art"));
    assert_eq!(own.len(), 2);
    assert_eq!(own[1].timestamp, 3);
    assert_eq!(
        sorted_playcount_list(gather::albums(&e), 1),
        vec![("X".to_string(), 1)]
    );
    assert_eq!(
        sorted_playcount_list(vec![(Album::new("b", "a"), 2), (Album::new("a", "a"), 2)], 5),
        vec![("a".to_string(), 2), ("b".to_string(), 2)]
    );
}

#[test]
fn parsing_raw_entries() {
    let raws = vec![
        raw("2020-01-02T10:00:00+02:00", 5, "B", "X", "Art"),
        raw("2020-01-01T10:00:00Z", 7, "A", "X", "Art"),
    ];
    let parsed = parse(&raws).unwrap();
    assert_eq!(parsed.len(), 2);
    assert_eq!(parsed[0].track, "A");
    assert_eq!(parsed[0].timestamp, 1577872800000);
    // 10:00 at UTC+2 is 08:00 UTC
    assert_eq!(parsed[1].timestamp, 1577952000000);
    let bad = vec![raw("2020-01-01", 7, "A", "X", "Art")];
    assert_eq!(parse(&bad).err(), Some(EntryError::InvalidTimestamp(0)));
}
