use std::cmp::Ordering;

use endsong::aspect::{Album, Artist, Music, Song};
use endsong::entry::SongEntry;

/// Tests the `::new` constructors of Artist, Album and Song
#[test]
fn aspect_test_constructors() {
    assert_eq!(Artist::new(&String::from("Sabaton")), Artist::new("Sabaton"));
    assert_eq!(
        Artist::new("Sabaton"),
        Artist {
            name: String::from("Sabaton")
        }
    );

    assert_eq!(
        Album::new(&String::from("Coat of Arms"), &String::from("Sabaton")),
        Album::new("Coat of Arms", "Sabaton")
    );
    assert_eq!(
        Album::new("Coat of Arms", "Sabaton"),
        Album {
            name: String::from("Coat of Arms"),
            artist: Artist::new("Sabaton")
        }
    );

    assert_eq!(
        Song::new(
            &String::from("The Final Solution"),
            &String::from("Coat of Arms"),
            &String::from("Sabaton")
        ),
        Song::new("The Final Solution", "Coat of Arms", "Sabaton")
    );
    assert_eq!(
        Song::new("The Final Solution", "Coat of Arms", "Sabaton"),
        Song {
            name: String::from("The Final Solution"),
            album: Album::new("Coat of Arms", "Sabaton")
        }
    );
}

/// Tests the `::new` constructors of Artist, Album and Song
#[test]
fn types_test_constructors() {
    assert_eq!(Artist::new(&String::from("Sabaton")), Artist::new("Sabaton"));
    assert_eq!(
        Artist::new("Sabaton"),
        Artist {
            name: String::from("Sabaton")
        }
    );

    assert_eq!(
        Album::new(&String::from("Coat of Arms"), &String::from("Sabaton")),
        Album::new("Coat of Arms", "Sabaton")
    );
    assert_eq!(
        Album::new("Coat of Arms", "Sabaton"),
        Album {
            name: String::from("Coat of Arms"),
            artist: Artist::new("Sabaton")
        }
    );

    assert_eq!(
        Song::new(
            &String::from("The Final Solution"),
            &String::from("Coat of Arms"),
            &String::from("Sabaton")
        ),
        Song::new("The Final Solution", "Coat of Arms", "Sabaton")
    );
    assert_eq!(
        Song::new("The Final Solution", "Coat of Arms", "Sabaton"),
        Song {
            name: String::from("The Final Solution"),
            album: Album::new("Coat of Arms", "Sabaton")
        }
    );
}

/// Tests [`PartialOrd`] for [`Artist`]
#[test]
fn aspect_ord_artist() {
    assert!(Artist::new("Sabaton") > Artist::new("Sabatoa"));
    assert!(
        Artist::new("Sabaton").partial_cmp(&Artist::new("Sabatoa")) == Some(Ordering::Greater)
    );

    assert!(Artist::new("Sabaton") == Artist::new("Sabaton"));
    assert!(
        Artist::new("Sabaton").partial_cmp(&Artist::new("Sabaton")) == Some(Ordering::Equal)
    );

    assert!(Artist::new("Sabaton") < Artist::new("Sabatoz"));
    assert!(
        Artist::new("Sabaton").partial_cmp(&Artist::new("Sabatoz")) == Some(Ordering::Less)
    );
}

/// Tests [`PartialOrd`] for [`Artist`]
#[test]
fn types_ord_artist() {
    assert!(Artist::new("Sabaton") > Artist::new("Sabatoa"));
    assert!(
        Artist::new("Sabaton").partial_cmp(&Artist::new("Sabatoa")) == Some(Ordering::Greater)
    );

    assert!(Artist::new("Sabaton") == Artist::new("Sabaton"));
    assert!(
        Artist::new("Sabaton").partial_cmp(&Artist::new("Sabaton")) == Some(Ordering::Equal)
    );

    assert!(Artist::new("Sabaton") < Artist::new("Sabatoz"));
    assert!(
        Artist::new("Sabaton").partial_cmp(&Artist::new("Sabatoz")) == Some(Ordering::Less)
    );
}

/// Tests [`PartialOrd`] for [`Album`]
#[test]
fn aspect_ord_album() {
    assert!(Album::new("Coat of Arms", "Sabaton") > Album::new("Carolus Rex", "Sabaton"));
    assert!(
        Album::new("Coat of Arms", "Sabaton").partial_cmp(&Album::new("Carolus Rex", "Sabaton"))
            == Some(Ordering::Greater)
    );

    assert!(Album::new("AAAA", "ZZZZZ") > Album::new("Carolus Rex", "Sabaton"));
    assert!(
        Album::new("AAAA", "ZZZZZ").partial_cmp(&Album::new("Carolus Rex", "Sabaton"))
            == Some(Ordering::Greater)
    );

    assert!(Album::new("Carolus Rex", "Sabaton") == Album::new("Carolus Rex", "Sabaton"));
    assert!(
        Album::new("Carolus Rex", "Sabaton").partial_cmp(&Album::new("Carolus Rex", "Sabaton"))
            == Some(Ordering::Equal)
    );

    assert!(Album::new("ZZZZZZZ", "Alestorm") < Album::new("AAAAAA", "Sabaton"));
    assert!(
        Album::new("ZZZZZZZ", "Alestorm").partial_cmp(&Album::new("AAAAAA", "Sabaton"))
            == Some(Ordering::Less)
    );
}

/// Tests [`PartialOrd`] for [`Album`]
#[test]
fn types_ord_album() {
    assert!(Album::new("Coat of Arms", "Sabaton") > Album::new("Carolus Rex", "Sabaton"));
    assert!(
        Album::new("Coat of Arms", "Sabaton").partial_cmp(&Album::new("Carolus Rex", "Sabaton"))
            == Some(Ordering::Greater)
    );

    assert!(Album::new("AAAA", "ZZZZZ") > Album::new("Carolus Rex", "Sabaton"));
    assert!(
        Album::new("AAAA", "ZZZZZ").partial_cmp(&Album::new("Carolus Rex", "Sabaton"))
            == Some(Ordering::Greater)
    );

    assert!(Album::new("Carolus Rex", "Sabaton") == Album::new("Carolus Rex", "Sabaton"));
    assert!(
        Album::new("Carolus Rex", "Sabaton").partial_cmp(&Album::new("Carolus Rex", "Sabaton"))
            == Some(Ordering::Equal)
    );

    assert!(Album::new("ZZZZZZZ", "Alestorm") < Album::new("AAAAAA", "Sabaton"));
    assert!(
        Album::new("ZZZZZZZ", "Alestorm").partial_cmp(&Album::new("AAAAAA", "Sabaton"))
            == Some(Ordering::Less)
    );
}

/// Tests [`PartialOrd`] for [`Song`]
#[test]
fn aspect_ord_song() {
    assert!(
        Song::new("Swedish Pagans", "Carolus Rex", "Sabaton")
            > Song::new("Coat of Arms", "Coat of Arms", "Sabaton")
    );
    assert!(
        Song::new("Swedish Pagans", "Carolus Rex", "Sabaton").partial_cmp(&Song::new(
            "Coat of Arms",
            "Coat of Arms",
            "Sabaton"
        )) == Some(Ordering::Greater)
    );

    assert!(
        Song::new(
            "Forbidden Equations Deep Within The Epimethean Wasteland",
            "Hypercube Necrodimensions",
            "Wizardthrone"
        ) > Song::new(
            "Forbidden Equations Deep Within The Epimethean Wasteland",
            "Forbidden Equations Deep Within The Epimethean Wasteland",
            "Wizardthrone"
        )
    );
    assert!(
        Song::new(
            "Forbidden Equations Deep Within The Epimethean Wasteland",
            "Hypercube Necrodimensions",
            "Wizardthrone"
        )
        .partial_cmp(&Song::new(
            "Forbidden Equations Deep Within The Epimethean Wasteland",
            "Forbidden Equations Deep Within The Epimethean Wasteland",
            "Wizardthrone"
        )) == Some(Ordering::Greater)
    );

    assert!(
        Song::new("Swedish Pagans", "Carolus Rex", "Sabaton")
            == Song::new("Swedish Pagans", "Carolus Rex", "Sabaton")
    );
    assert!(
        Song::new("Swedish Pagans", "Carolus Rex", "Sabaton").partial_cmp(&Song::new(
            "Swedish Pagans",
            "Carolus Rex",
            "Sabaton"
        )) == Some(Ordering::Equal)
    );

    assert!(
        Song::new("Hearts on Fire", "Crimson Thunder", "HammerFall")
            < Song::new("The Final Solution", "Coat of Arms", "Sabaton")
    );
    assert!(
        Song::new("Hearts on Fire", "Crimson Thunder", "HammerFall").partial_cmp(&Song::new(
            "The Final Solution",
            "Coat of Arms",
            "Sabaton"
        )) == Some(Ordering::Less)
    );
}

/// Tests [`PartialOrd`] for [`Song`]
#[test]
fn types_ord_song() {
    assert!(
        Song::new("Swedish Pagans", "Carolus Rex", "Sabaton")
            > Song::new("Coat of Arms", "Coat of Arms", "Sabaton")
    );
    assert!(
        Song::new("Swedish Pagans", "Carolus Rex", "Sabaton").partial_cmp(&Song::new(
            "Coat of Arms",
            "Coat of Arms",
            "Sabaton"
        )) == Some(Ordering::Greater)
    );

    assert!(
        Song::new(
            "Forbidden Equations Deep Within The Epimethean Wasteland",
            "Hypercube Necrodimensions",
            "Wizardthrone"
        ) > Song::new(
            "Forbidden Equations Deep Within The Epimethean Wasteland",
            "Forbidden Equations Deep Within The Epimethean Wasteland",
            "Wizardthrone"
        )
    );
    assert!(
        Song::new(
            "Forbidden Equations Deep Within The Epimethean Wasteland",
            "Hypercube Necrodimensions",
            "Wizardthrone"
        )
        .partial_cmp(&Song::new(
            "Forbidden Equations Deep Within The Epimethean Wasteland",
            "Forbidden Equations Deep Within The Epimethean Wasteland",
            "Wizardthrone"
        )) == Some(Ordering::Greater)
    );

    assert!(
        Song::new("Swedish Pagans", "Carolus Rex", "Sabaton")
            == Song::new("Swedish Pagans", "Carolus Rex", "Sabaton")
    );
    assert!(
        Song::new("Swedish Pagans", "Carolus Rex", "Sabaton").partial_cmp(&Song::new(
            "Swedish Pagans",
            "Carolus Rex",
            "Sabaton"
        )) == Some(Ordering::Equal)
    );

    assert!(
        Song::new("Hearts on Fire", "Crimson Thunder", "HammerFall")
            < Song::new("The Final Solution", "Coat of Arms", "Sabaton")
    );
    assert!(
        Song::new("Hearts on Fire", "Crimson Thunder", "HammerFall").partial_cmp(&Song::new(
            "The Final Solution",
            "Coat of Arms",
            "Sabaton"
        )) == Some(Ordering::Less)
    );
}

#[test]
fn aspect_equality() {
    let entry = SongEntry {
        timestamp: 0,
        time_played: 0,
        track: String::from("White Death"),
        album: String::from("Coat of Arms"),
        artist: String::from("Sabaton"),
    };

    assert!(Artist::new("Sabaton").is_entry(&entry));
    assert!(!Artist::new("SABATON").is_entry(&entry));
    assert!(Artist::new("SABATON").is_entry_ignore_case(&entry));

    assert!(Album::new("Coat of Arms", "Sabaton").is_entry(&entry));
    assert!(!Album::new("Coat Of Arms", "SABATON").is_entry(&entry));
    assert!(Album::new("Coat Of Arms", "SABATON").is_entry_ignore_case(&entry));

    assert!(Song::new("White Death", "Coat of Arms", "Sabaton").is_entry(&entry));
    assert!(!Song::new("white death", "Coat Of Arms", "SABATON").is_entry(&entry));
    assert!(Song::new("white death", "Coat Of Arms", "SABATON").is_entry_ignore_case(&entry));
}
