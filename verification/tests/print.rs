use endsong::aspect::{Album, Artist, Song};
use endsong::command::Aspect;
use endsong::display::{days_hours_minutes, display_duration, pretty_duration};
use endsong::entry::SongEntry;
use endsong::print::{aspect, aspect_date, normalize_dates, time_played_figures, top, top_from_album, top_from_artist, AspectFull, Mode};

fn entry(timestamp: i64, time_played: i64, track: &str, album: &str, artist: &str) -> SongEntry {
    SongEntry {
        timestamp,
        time_played,
        track: track.to_string(),
        album: album.to_string(),
        artist: artist.to_string(),
    }
}

fn sample() -> Vec<SongEntry> {
    vec![
        entry(1, 100, "A", "X", "Art1"),
        entry(2, 200, "B", "X", "Art1"),
        entry(3, 100, "A", "X", "Art1"),
        entry(4, 300, "A", "Y", "Art1"),
        entry(5, 50, "C", "Z", "Art2"),
        entry(6, 300, "A", "Y", "Art1"),
    ]
}

#[test]
fn top_lists() {
    let e = sample();
    assert_eq!(
        top(&e, Aspect::Songs, 2, false),
        vec!["=== TOP 2 SONGS ===", "#1: Art1 - A (X) | 2 plays", "#2: Art1 - A (Y) | 2 plays", ""]
    );
    assert_eq!(
        top(&e, Aspect::Songs, 2, true),
        vec!["=== TOP 2 SONGS ===", "#1: Art1 - A (Y) | 4 plays", "#2: Art1 - B (X) | 1 plays", ""]
    );
    assert_eq!(
        top(&e, Aspect::Artists, 5, false),
        vec!["=== TOP 5 ARTISTS ===", "#1: Art1 | 5 plays", "#2: Art2 | 1 plays", ""]
    );
    assert_eq!(
        top(&e, Aspect::Albums, 1, false),
        vec!["=== TOP 1 ALBUMS ===", "#1: Art1 - X | 3 plays", ""]
    );
}

#[test]
fn top_of_nothing_is_a_header() {
    let e = sample();
    assert_eq!(top(&e, Aspect::Artists, 0, false), vec!["=== TOP 0 ARTISTS ===", ""]);
}

#[test]
fn top_list_positions_line_up() {
    let mut e = Vec::new();
    for i in 0..12 {
        e.push(entry(i, 1, &format!("S{i:02}"), "X", "Art"));
    }
    let lines = top(&e, Aspect::Songs, 10, false);
    assert_eq!(lines.len(), 12);
    assert_eq!(lines[11], "");
    assert_eq!(lines[1], " #1: Art - S00 (X) | 1 plays");
    assert_eq!(lines[10], "#10: Art - S09 (X) | 1 plays");
}

#[test]
fn top_from_an_aspect() {
    let e = sample();
    assert_eq!(
        top_from_artist(&e, Mode::Songs, &Artist::new("Art1"), 3),
        vec![
            "=== TOP 3 SONGS FROM Art1 ===",
            "#1: Art1 - A (X) | 2 plays",
            "#2: Art1 - A (Y) | 2 plays",
            "#3: Art1 - B (X) | 1 plays", ""]
    );
    assert_eq!(
        top_from_artist(&e, Mode::Albums, &Artist::new("Art1"), 5),
        vec!["=== TOP 5 ALBUMS FROM Art1 ===", "#1: Art1 - X | 3 plays", "#2: Art1 - Y | 2 plays", ""]
    );
    assert_eq!(
        top_from_album(&e, &Album::new("X", "Art1"), 1),
        vec!["=== TOP 1 SONGS FROM Art1 - X ===", "#1: Art1 - A (X) | 2 plays", ""]
    );
}

#[test]
fn aspect_listings() {
    let e = sample();
    let art = Artist::new("Art1");
    assert_eq!(
        aspect(&e, &AspectFull::Artist(&art)),
        vec![
            "Art1 | 5 plays",
            "    X | 3 plays",
            "        A | 2 plays",
            "        B | 1 plays",
            "    Y | 2 plays",
            "        A | 2 plays"
        ]
    );
    let alb = Album::new("X", "Art1");
    assert_eq!(
        aspect(&e, &AspectFull::Album(&alb)),
        vec!["Art1 - X | 3 plays", "    A | 2 plays", "    B | 1 plays"]
    );
    let son = Song::new("A", "X", "Art1");
    assert_eq!(aspect(&e, &AspectFull::Song(&son)), vec!["Art1 - A (X) | 2 plays"]);
    assert_eq!(
        aspect_date(&e[0..3], &AspectFull::Song(&son), "2020-01-01", "2020-01-02"),
        vec!["Art1 - A (X) | between 2020-01-01 and 2020-01-02 | 2 plays"]
    );
    assert_eq!(
        aspect_date(&e[0..3], &AspectFull::Album(&alb), "a", "b"),
        vec!["Art1 - X | between a and b | 3 plays", "    A | 2 plays", "    B | 1 plays"]
    );
}

#[test]
fn time_played() {
    let e = sample();
    assert_eq!(normalize_dates(&e, 0, 100), (1, 6));
    assert_eq!(normalize_dates(&e, 2, 5), (2, 5));

    let day = 86_400_000;
    let t = time_played_figures(25 * 3_600_000, 10, 0, 2 * day).unwrap();
    assert_eq!(t.days, 1);
    assert_eq!(t.hours, 25);
    assert_eq!(t.minutes, 1500);
    assert_eq!(t.period_minutes, 2880);
    assert_eq!(t.period_days, 2);
    assert_eq!(t.plays_per_day, 5);
    assert_eq!(t.hours_per_day, 12);
    // a period shorter than a day has no figures per day
    assert!(time_played_figures(1000, 1, 0, day - 1).is_none());
}

#[test]
fn durations_as_text() {
    assert_eq!(display_duration(125_000), "02:05");
    assert_eq!(display_duration(0), "00:00");
    assert_eq!(display_duration(3_723_000), "01:02:03");
    assert_eq!(display_duration(5_405_000), "01:30:05");
    assert_eq!(display_duration(2 * 3_600_000 + 3 * 60_000 + 4_000), "02:03:04");
    assert_eq!(pretty_duration(125_000), "2m 5s");
    assert_eq!(days_hours_minutes(90_000), "90s");
    assert_eq!(days_hours_minutes(5 * 60_000), "5m");
    assert_eq!(days_hours_minutes(3 * 3_600_000 + 7 * 60_000), "3h 7m");
    assert_eq!(days_hours_minutes(2 * 86_400_000 + 5 * 3_600_000 + 9 * 60_000 + 30_000), "2d 5h 9m");
    assert_eq!(pretty_duration(5_999), "5s");
    assert_eq!(pretty_duration(-65_000), "-1m -5s");
}
