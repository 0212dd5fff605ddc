use sunny::models::{Album, Track};

fn track(num: i32, name: &str, url: &str, lyrics: Option<&str>) -> Track {
    Track {
        num,
        name: name.to_string(),
        url: url.to_string(),
        lyrics: lyrics.map(|text| text.to_string()),
    }
}

#[test]
fn track_with_name_and_url_lacks_nothing_needed() {
    assert!(!track(0, "Song", "https://host/a.mp3", None).has_missing_fields());
}

#[test]
fn track_without_name_has_missing_fields() {
    assert!(track(1, "", "https://host/a.mp3", Some("la")).has_missing_fields());
}

#[test]
fn track_without_url_has_missing_fields() {
    assert!(track(1, "Song", "", Some("la")).has_missing_fields());
}

#[test]
fn missing_fields_are_named_in_order() {
    assert_eq!(
        track(0, "", "", None).missing_fields(),
        vec!["name".to_string(), "num".to_string(), "url".to_string(), "lyrics".to_string()]
    );
    assert_eq!(track(3, "Song", "u", Some("")).missing_fields(), Vec::<String>::new());
    assert_eq!(track(3, "Song", "", Some("x")).missing_fields(), vec!["url".to_string()]);
}

#[test]
fn update_fills_only_what_is_missing() {
    let mut album = Album {
        artist: "Artist".to_string(),
        album: String::new(),
        release_date: String::new(),
        tracks: vec![],
        tags: Some(String::new()),
        album_art_url: None,
        artist_art_url: Some("mine".to_string()),
    };
    let other = Album {
        artist: "Other".to_string(),
        album: "Title".to_string(),
        release_date: "28 Sep 2014 04:19:31 GMT".to_string(),
        tracks: vec![track(1, "Song", "u", None)],
        tags: Some("rock".to_string()),
        album_art_url: Some("cover".to_string()),
        artist_art_url: Some("theirs".to_string()),
    };
    album.update(other);
    assert_eq!(album.artist, "Artist");
    assert_eq!(album.album, "Title");
    assert_eq!(album.release_date, "28 Sep 2014 04:19:31 GMT");
    assert_eq!(album.tracks, vec![track(1, "Song", "u", None)]);
    assert_eq!(album.tags, Some(String::new()));
    assert_eq!(album.album_art_url, Some("cover".to_string()));
    assert_eq!(album.artist_art_url, Some("mine".to_string()));
}

#[test]
fn update_of_a_complete_album_changes_nothing() {
    let full = || Album {
        artist: "A".to_string(),
        album: "B".to_string(),
        release_date: "C".to_string(),
        tracks: vec![track(1, "Song", "u", None)],
        tags: Some("t".to_string()),
        album_art_url: Some("x".to_string()),
        artist_art_url: Some("y".to_string()),
    };
    let mut album = full();
    album.update(Album::default());
    assert_eq!(album, full());
    let mut album = full();
    let mut other = full();
    other.artist = "Z".to_string();
    other.tracks = vec![];
    album.update(other);
    assert_eq!(album, full());
}

#[test]
fn default_album_and_track_are_empty() {
    let album = Album::default();
    assert!(album.artist.is_empty() && album.tracks.is_empty() && album.tags.is_none());
    let copy = track(2, "n", "u", Some("l")).clone();
    assert_eq!(copy, track(2, "n", "u", Some("l")));
    assert_eq!(Track::default(), track(0, "", "", None));
}
