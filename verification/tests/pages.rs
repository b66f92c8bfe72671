use endsong::aspect::{Artist, Song};
use endsong::entry::SongEntries;
use endsong::pages::{artist_song_list, encode_url, link, remove_html_comments, select_by_id, song_page, SongPageError};
use endsong::parse::RawEntry;

fn raw(ts: &str, ms: i64, track: &str, album: &str, artist: &str) -> RawEntry {
    RawEntry {
        ts: ts.to_string(),
        ms_played: ms,
        master_metadata_track_name: Some(track.to_string()),
        master_metadata_album_artist_name: Some(artist.to_string()),
        master_metadata_album_album_name: Some(album.to_string()),
    }
}

fn dataset() -> SongEntries {
    SongEntries::new(&[
        raw("2020-01-01T10:00:00Z", 200000, "A", "X", "Artist 1"),
        raw("2020-01-01T11:00:00Z", 200000, "A", "X", "Artist 1"),
        raw("2020-01-02T10:00:00Z", 100000, "A", "Y", "Artist 1"),
        raw("2020-01-03T10:00:00Z", 190000, "A", "X", "Artist 1"),
    ])
    .unwrap()
}

#[test]
fn song_page_sums_all_versions() {
    let entries = dataset();
    let a_x = Song::new("A", "X", "Artist 1");
    let a_y = Song::new("A", "Y", "Artist 1");
    let page = song_page(&entries, &[a_x.clone(), a_y.clone()], &Artist::new("Artist 1")).unwrap();
    assert_eq!(page.base_song, a_x);
    assert_eq!(page.plays, 4);
    assert_eq!(page.time_played, 690000);
    assert_eq!(page.first_listen, 1577872800000);
    assert_eq!(page.last_listen, 1578045600000);
    assert_eq!(page.duration, 200000);
    assert_eq!(page.avg_time_played, 172500);
    assert_eq!(page.full_listens, 2);
    assert_eq!(page.ninety_listens, 3);
    assert_eq!(page.song_versions.len(), 2);
    assert_eq!(page.song_versions[0].song, a_x);
    assert_eq!(page.song_versions[0].plays, 3);
    assert_eq!(page.song_versions[0].time_played, 590000);
    assert_eq!(page.song_versions[1].song, a_y);
    assert_eq!(page.song_versions[1].first_listen, 1577959200000);
    assert_eq!(page.song_versions[1].last_listen, 1577959200000);
}

#[test]
fn song_page_errors() {
    let entries = dataset();
    let a_x = Song::new("A", "X", "Artist 1");
    assert_eq!(
        song_page(&entries, &[a_x], &Artist::new("Other")).err(),
        Some(SongPageError::NoVersion)
    );
    let unplayed = Song::new("Q", "X", "Artist 1");
    assert_eq!(
        song_page(&entries, &[unplayed], &Artist::new("Artist 1")).err(),
        Some(SongPageError::NotPlayed)
    );
}

#[test]
fn urls() {
    assert_eq!(encode_url("AC/DC"), "AC%2FDC");
    assert_eq!(encode_url("Guns N' Roses"), "Guns%20N%27%20Roses");
    assert_eq!(encode_url("Motörhead"), "Mot%C3%B6rhead");
    assert_eq!(encode_url("plain-name_1.0~"), "plain-name_1.0~");
    assert_eq!(link("/artist", &["AC/DC"], "artist_id", None), "/artist/AC%2FDC");
    assert_eq!(
        link("/album", &["AC/DC", "Back in Black"], "artist_id", Some(1)),
        "/album/AC%2FDC/Back%20in%20Black?artist_id=1"
    );
}

#[test]
fn selecting_a_version() {
    let one = vec![Artist::new("a")];
    let two = vec![Artist::new("a"), Artist::new("A")];
    assert_eq!(select_by_id(&one, None), Some(0));
    assert_eq!(select_by_id(&one, Some(5)), Some(0));
    assert_eq!(select_by_id(&two, None), None);
    assert_eq!(select_by_id(&two, Some(1)), Some(1));
    assert_eq!(select_by_id(&two, Some(2)), None);
}

#[test]
fn html_comments() {
    assert_eq!(
        remove_html_comments("text/html; charset=utf-8", "<p>a<!-- one -->b<!-- two --></p>"),
        "<p>ab</p>"
    );
    // a comment over several lines is removed too
    assert_eq!(remove_html_comments("text/html", "a<!--\nx\n-->b"), "ab");
    assert_eq!(remove_html_comments("text/html", "a<!--x\ny-->b<!--c-->d"), "abd");
    // the first `-->` closes a comment; one that is never closed stays
    assert_eq!(remove_html_comments("text/html", "a<!-->b-->c-->d"), "ac-->d");
    assert_eq!(remove_html_comments("text/html", "a<!---->b"), "ab");
    assert_eq!(remove_html_comments("text/html", "a<!--->b"), "a<!--->b");
    assert_eq!(remove_html_comments("text/html", "x-->y<!--z"), "x-->y<!--z");
    assert_eq!(
        remove_html_comments("text/css", "a<!-- kept -->b"),
        "a<!-- kept -->b"
    );
}

#[test]
fn artist_song_list_ranks_and_links() {
    let entries = dataset();
    let artist = Artist::new("Artist 1");
    let list = artist_song_list(&entries, &artist, None, false, None);
    assert_eq!(
        list,
        vec![
            ("/song/Artist%201/A".to_string(), Song::new("A", "X", "Artist 1"), 3),
            ("/song/Artist%201/A".to_string(), Song::new("A", "Y", "Artist 1"), 1),
        ]
    );
    let top = artist_song_list(&entries, &artist, Some(1), false, Some(2));
    assert_eq!(
        top,
        vec![("/song/Artist%201/A?artist_id=2".to_string(), Song::new("A", "X", "Artist 1"), 3)]
    );
    let summed = artist_song_list(&entries, &artist, None, true, None);
    assert_eq!(
        summed,
        vec![("/song/Artist%201/A".to_string(), Song::new("A", "X", "Artist 1"), 4)]
    );
    assert!(artist_song_list(&entries, &Artist::new("Other"), None, true, None).is_empty());
    assert!(artist_song_list(&entries, &artist, Some(0), false, None).is_empty());
}
