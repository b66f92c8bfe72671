use endsong::aspect::{Album, Artist};
use endsong::browse::{artists_by_name, aspect_stats, history_entries, rank_of, search_artists, HistoryError};
use endsong::entry::{SongEntries, SongEntry};
use endsong::gather;
use endsong::parse::RawEntry;
use endsong::rank::ranking;

fn entry(timestamp: i64, time_played: i64, track: &str, album: &str, artist: &str) -> SongEntry {
    SongEntry {
        timestamp,
        time_played,
        track: track.to_string(),
        album: album.to_string(),
        artist: artist.to_string(),
    }
}

fn raw(ts: &str, ms: i64, track: &str, album: &str, artist: &str) -> RawEntry {
    RawEntry {
        ts: ts.to_string(),
        ms_played: ms,
        master_metadata_track_name: Some(track.to_string()),
        master_metadata_album_artist_name: Some(artist.to_string()),
        master_metadata_album_album_name: Some(album.to_string()),
    }
}

fn sample() -> Vec<SongEntry> {
    vec![
        entry(1, 100, "A", "X", "Sabaton"),
        entry(2, 200, "B", "Y", "Powerwolf"),
        entry(3, 300, "C", "X", "Sabaton"),
        entry(4, 50, "D", "Z", "AC/DC"),
        entry(5, 10, "A", "X", "Sabaton"),
    ]
}

#[test]
fn page_statistics() {
    let e = sample();
    let st = aspect_stats(&e, &Artist::new("Sabaton")).unwrap();
    assert_eq!(st.plays, 3);
    assert_eq!(st.time_played, 410);
    assert_eq!(st.first_listen, 1);
    assert_eq!(st.last_listen, 5);
    let st = aspect_stats(&e, &Album::new("Y", "Powerwolf")).unwrap();
    assert_eq!((st.plays, st.time_played, st.first_listen, st.last_listen), (1, 200, 2, 2));
    assert!(aspect_stats(&e, &Artist::new("Nobody")).is_none());
}

#[test]
fn rank_of_an_artist() {
    let e = sample();
    let ranks = ranking(gather::artists(&e));
    assert_eq!(rank_of(&ranks, &Artist::new("Sabaton")), Some((3, 1)));
    assert_eq!(rank_of(&ranks, &Artist::new("Powerwolf")), Some((1, 3)));
    assert_eq!(rank_of(&ranks, &Artist::new("AC/DC")), Some((1, 2)));
    assert_eq!(rank_of(&ranks, &Artist::new("Nobody")), None);
}

#[test]
fn artist_list_and_search() {
    let e = sample();
    let all = artists_by_name(&e);
    assert_eq!(all, vec![Artist::new("AC/DC"), Artist::new("Powerwolf"), Artist::new("Sabaton")]);
    assert_eq!(search_artists(&all, "WOLF"), vec![Artist::new("Powerwolf")]);
    assert_eq!(search_artists(&all, "a"), vec![Artist::new("AC/DC"), Artist::new("Sabaton")]);
    assert_eq!(search_artists(&all, ""), all);
    assert!(search_artists(&all, "xyz").is_empty());
}

#[test]
fn history_of_a_period() {
    let entries = SongEntries::new(&[
        raw("2020-01-01T10:00:00Z", 1000, "A", "X", "Sabaton"),
        raw("2020-01-03T10:00:00Z", 1000, "B", "X", "Sabaton"),
    ])
    .unwrap();
    let jan1 = 1577872800000;
    let jan3 = 1578045600000;
    assert_eq!(history_entries(&entries, jan3, jan1).err(), Some(HistoryError::WrongOrder));
    // nothing on 2020-01-02
    assert_eq!(
        history_entries(&entries, 1577923200000, 1578009599000).err(),
        Some(HistoryError::Empty)
    );
    assert_eq!(history_entries(&entries, jan1, jan3).unwrap().len(), 2);
}
