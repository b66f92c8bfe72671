use endsong::aspect::{Album, Artist, Song};
use endsong::entry::SongEntries;
use endsong::parse::{EntryError, RawEntry};

fn raw(ts: &str, ms: i64, track: &str, album: &str, artist: &str) -> RawEntry {
    RawEntry {
        ts: ts.to_string(),
        ms_played: ms,
        master_metadata_track_name: Some(track.to_string()),
        master_metadata_album_artist_name: Some(artist.to_string()),
        master_metadata_album_album_name: Some(album.to_string()),
    }
}

fn podcast(ts: &str, ms: i64) -> RawEntry {
    RawEntry {
        ts: ts.to_string(),
        ms_played: ms,
        master_metadata_track_name: None,
        master_metadata_album_artist_name: None,
        master_metadata_album_album_name: None,
    }
}

const DEC31_10: i64 = 1577786400000;
const JAN1_10: i64 = 1577872800000;
const JAN1_11: i64 = 1577876400000;
const JAN2_10: i64 = 1577959200000;
const JAN3_10: i64 = 1578045600000;

fn sample() -> Vec<RawEntry> {
    vec![
        raw("2020-01-01T10:00:00Z", 200000, "Song A", "Album X", "Artist 1"),
        raw("2020-01-01T11:00:00Z", 200000, "Song A", "Album X", "Artist 1"),
        raw("2020-01-02T10:00:00Z", 150000, "Song B", "Album X", "Artist 1"),
        raw("2020-01-03T10:00:00Z", 100000, "Song C", "Album Y", "Artist 2"),
        podcast("2020-01-03T12:00:00Z", 3000),
        // same timestamp as the first entry: not counted again
        raw("2020-01-01T10:00:00Z", 999, "Song Z", "Album Z", "Artist Z"),
        raw("2019-12-31T10:00:00Z", 5000, "Song A", "Album X", "Artist 1"),
    ]
}

#[test]
fn new_sorts_and_skips_podcasts_and_repeated_timestamps() {
    let entries = SongEntries::new(&sample()).unwrap();
    assert_eq!(entries.len(), 5);
    let stamps: Vec<i64> = entries.entries().iter().map(|e| e.timestamp).collect();
    assert_eq!(stamps, vec![DEC31_10, JAN1_10, JAN1_11, JAN2_10, JAN3_10]);
    assert_eq!(entries.entries()[1].track, "Song A");
    assert_eq!(entries.entries()[1].time_played, 200000);
}

#[test]
fn new_reports_the_first_invalid_entry() {
    let mut raws = sample();
    raws[2].ts = String::from("yesterday");
    assert_eq!(SongEntries::new(&raws).err(), Some(EntryError::InvalidTimestamp(2)));

    let mut raws = sample();
    raws[3].ms_played = i64::MIN;
    assert_eq!(SongEntries::new(&raws).err(), Some(EntryError::InvalidDuration(3)));
}

#[test]
fn first_and_last_date_are_the_extremes() {
    let entries = SongEntries::new(&sample()).unwrap();
    let first = entries.entries().iter().map(|e| e.timestamp).min().unwrap();
    let last = entries.entries().iter().map(|e| e.timestamp).max().unwrap();
    assert_eq!(entries.first_date(), first);
    assert_eq!(entries.last_date(), last);
}

#[test]
fn between_dates() {
    let entries = SongEntries::new(&sample()).unwrap();
    // 2020-01-01T00:00:00Z to 2020-01-02T23:59:59Z
    let within = entries.between(1577836800000, 1578009599000);
    assert_eq!(within.len(), 3);
    assert_eq!(within[0].timestamp, JAN1_10);
    assert_eq!(within[2].timestamp, JAN2_10);
    // the whole dataset
    let all = entries.between(entries.first_date(), entries.last_date());
    assert_eq!(all.len(), entries.len());
    // bounds are included
    assert_eq!(entries.between(JAN1_11, JAN1_11 + 1).len(), 1);
}

#[test]
fn durations_and_song_length() {
    let entries = SongEntries::new(&sample()).unwrap();
    let song_a = Song::new("Song A", "Album X", "Artist 1");
    // two plays of 200000, one of 5000
    assert_eq!(entries.song_length(&song_a), 200000);
    assert_eq!(entries.duration_of(&song_a), Some(200000));
    assert_eq!(entries.duration_of(&Song::new("Song Z", "Album Z", "Artist Z")), None);
    assert_eq!(entries.durations().len(), 3);
}

#[test]
fn filter_removes_short_plays() {
    let entries = SongEntries::new(&sample()).unwrap();
    let filtered = entries.filter(30, 10_000);
    assert_eq!(filtered.len(), 4);
    assert_eq!(filtered.first_date(), JAN1_10);

    // a play of 100% of its song's duration stays
    let entries = SongEntries::new(&sample()).unwrap();
    let strict = entries.filter(100, 0);
    assert_eq!(strict.len(), 4);
}

#[test]
fn max_listening_time_windows() {
    let entries = SongEntries::new(&sample()).unwrap();
    assert!(entries.max_listening_time_fits(86_400_000));
    // the day from 2020-01-01T10:00 to 2020-01-02T10:00 holds three plays
    assert_eq!(entries.max_listening_time(86_400_000), (550000, JAN1_10, JAN2_10));
    // a span shorter than a day counts as a day
    assert_eq!(entries.max_listening_time(1000), (550000, JAN1_10, JAN2_10));
    // a span over the whole dataset gives the whole dataset
    assert_eq!(entries.max_listening_time(i64::MAX), (655000, DEC31_10, JAN3_10));
}

#[test]
fn names_in_the_dataset() {
    let entries = SongEntries::new(&sample()).unwrap();
    assert_eq!(entries.artists(), vec!["Artist 1".to_string(), "Artist 2".to_string()]);
    assert_eq!(entries.albums(&Artist::new("Artist 1")), vec!["Album X".to_string()]);
    assert_eq!(
        entries.songs(&Album::new("Album X", "Artist 1")),
        vec!["Song A".to_string(), "Song B".to_string()]
    );
    assert_eq!(
        entries.gather_plays_of_many(&[Song::new("Song A", "Album X", "Artist 1"), Song::new("Song C", "Album Y", "Artist 2")]),
        4
    );
}

#[test]
fn find_in_the_dataset() {
    let entries = SongEntries::new(&sample()).unwrap();
    assert_eq!(entries.find().artist("artist 1"), Some(vec![Artist::new("Artist 1")]));
    assert!(entries.find().artist("Powerwolf").is_none());
    assert_eq!(
        entries.find().album("album x", "ARTIST 1"),
        Some(vec![Album::new("Album X", "Artist 1")])
    );
    assert_eq!(
        entries.find().song_from_album("song b", "album x", "artist 1"),
        Some(vec![Song::new("Song B", "Album X", "Artist 1")])
    );
    assert_eq!(
        entries.find().song("song c", "artist 2"),
        Some(vec![Song::new("Song C", "Album Y", "Artist 2")])
    );
}

#[test]
fn capitalization_is_summed_to_the_newest_name() {
    let raws = vec![
        raw("2020-01-01T10:00:00Z", 1000, "Song A", "Album X", "Artist 1"),
        raw("2020-01-02T10:00:00Z", 1000, "song a", "album x", "Artist 1"),
        raw("2020-01-03T10:00:00Z", 1000, "Other", "Album Y", "Artist 1"),
    ];
    let entries = SongEntries::new(&raws).unwrap().sum_different_capitalization();
    let e = entries.entries();
    assert_eq!(e[0].album, "album x");
    assert_eq!(e[0].track, "song a");
    assert_eq!(e[1].album, "album x");
    assert_eq!(e[1].track, "song a");
    assert_eq!(e[2].album, "Album Y");
    assert_eq!(e[2].track, "Other");
    assert_eq!(entries.durations().len(), 2);
}

#[test]
fn capitalization_takes_the_most_recent_name() {
    let raws = vec![
        raw("2020-01-01T10:00:00Z", 1000, "T", "Fixed", "R"),
        raw("2020-01-02T10:00:00Z", 1000, "t", "FIXED", "R"),
        raw("2020-01-03T10:00:00Z", 1000, "T", "Fixed", "R"),
    ];
    let entries = SongEntries::new(&raws).unwrap().sum_different_capitalization();
    for e in entries.entries() {
        assert_eq!(e.album, "Fixed");
        assert_eq!(e.track, "T");
    }
    // summing again changes nothing
    let again = entries.sum_different_capitalization();
    for e in again.entries() {
        assert_eq!(e.album, "Fixed");
        assert_eq!(e.track, "T");
    }
}

#[test]
fn max_listening_time_on_a_short_dataset() {
    let raws = vec![
        raw("2020-01-01T10:00:00Z", 1000, "A", "X", "Y"),
        raw("2020-01-01T12:00:00Z", 2000, "B", "X", "Y"),
    ];
    let entries = SongEntries::new(&raws).unwrap();
    // the dataset spans two hours: any span gives the whole dataset
    assert_eq!(entries.max_listening_time(1000), (3000, JAN1_10, JAN1_10 + 7_200_000));
}
