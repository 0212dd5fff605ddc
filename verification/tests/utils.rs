use sunny::error::{Error, ErrorKind};
use sunny::models::{AlbumInfo, Track};
use sunny::utils;
use sunny::utils::{DateParts, DateTimeParts, Timestamp};

fn song(num: i32, name: &str) -> Track {
    Track { num, name: name.to_string(), url: "https://host/a.mp3".to_string(), lyrics: None }
}

fn release() -> AlbumInfo {
    AlbumInfo {
        artist: "The Artist".to_string(),
        album: "The Album".to_string(),
        release_date: "28 Sep 2014 04:19:31 GMT".to_string(),
        tags: None,
        album_art_url: None,
    }
}

#[test]
fn timestamp_case1() {
    let ret = utils::timestamp("28 Sep 2014 04:19:31 GMT");

    assert!(ret.is_some());
}

#[test]
fn timestamp_case2() {
    let ret = utils::timestamp("released September 28, 2014");

    assert!(ret.is_some());
}

#[test]
fn timestamp_of_a_date_and_time_has_every_field() {
    assert_eq!(
        utils::timestamp("28 Sep 2014 04:19:31 GMT"),
        Some(Timestamp {
            year: 2014,
            month: Some(9),
            day: Some(28),
            hour: Some(4),
            minute: Some(19),
            second: Some(31),
        })
    );
    assert_eq!(
        utils::timestamp("01 Jan 1999 23:59:59 UTC"),
        Some(Timestamp {
            year: 1999,
            month: Some(1),
            day: Some(1),
            hour: Some(23),
            minute: Some(59),
            second: Some(59),
        })
    );
}

#[test]
fn timestamp_of_a_prose_date_has_no_time() {
    assert_eq!(
        utils::timestamp("released September 28, 2014"),
        Some(Timestamp {
            year: 2014,
            month: Some(9),
            day: Some(28),
            hour: None,
            minute: None,
            second: None,
        })
    );
    assert_eq!(
        utils::timestamp("released February 3, 2020"),
        Some(Timestamp {
            year: 2020,
            month: Some(2),
            day: Some(3),
            hour: None,
            minute: None,
            second: None,
        })
    );
}

#[test]
fn timestamp_of_other_text_is_absent() {
    assert_eq!(utils::timestamp(""), None);
    assert_eq!(utils::timestamp("yesterday"), None);
    assert_eq!(utils::timestamp("September 28, 2014"), None);
    assert_eq!(utils::timestamp("released Septober 28, 2014"), None);
    assert_eq!(utils::timestamp("released February 30, 2014"), None);
    assert_eq!(utils::timestamp("32 Sep 2014 04:19:31 GMT"), None);
    assert_eq!(utils::timestamp("28 Sep 2014 25:19:31 GMT"), None);
    assert_eq!(utils::timestamp("2014-09-28T04:19:31Z"), None);
}

#[test]
fn timestamp_from_parts_prefers_the_date_and_time() {
    let moment = DateTimeParts { year: 2001, month: 2, day: 3, hour: 4, minute: 5, second: 6 };
    let date = DateParts { year: 1990, month: 12, day: 31 };
    let full = Timestamp {
        year: 2001,
        month: Some(2),
        day: Some(3),
        hour: Some(4),
        minute: Some(5),
        second: Some(6),
    };
    let short = Timestamp {
        year: 1990,
        month: Some(12),
        day: Some(31),
        hour: None,
        minute: None,
        second: None,
    };
    assert_eq!(utils::timestamp_from_parts("released x", Some(moment), Some(date)), Some(full));
    assert_eq!(utils::timestamp_from_parts("anything", Some(moment), None), Some(full));
    assert_eq!(utils::timestamp_from_parts("released x", None, Some(date)), Some(short));
    assert_eq!(utils::timestamp_from_parts("released", None, Some(date)), None);
    assert_eq!(utils::timestamp_from_parts("Released x", None, Some(date)), None);
    assert_eq!(utils::timestamp_from_parts("released x", None, None), None);
}

#[test]
fn format_container_holds_the_four_keys() {
    assert_eq!(
        utils::format_container("7", "Song", "Album", "Artist"),
        vec![
            ("num".to_string(), "7".to_string()),
            ("track".to_string(), "Song".to_string()),
            ("album".to_string(), "Album".to_string()),
            ("artist".to_string(), "Artist".to_string()),
        ]
    );
}

#[test]
fn template_is_filled_with_track_and_release() {
    assert_eq!(
        utils::parse_track_template("{num} - {track} - {album} {artist}", &song(2, "Track"), &release())
            .unwrap(),
        "2 - Track - The Album The Artist"
    );
    assert_eq!(utils::parse_track_template("plain", &song(2, "Track"), &release()).unwrap(), "plain");
    assert_eq!(
        utils::parse_track_template("{track:>6}|", &song(2, "ab"), &release()).unwrap(),
        "    ab|"
    );
}

#[test]
fn template_with_unknown_key_is_a_general_error() {
    let error = utils::parse_track_template("{title}", &song(2, "Track"), &release()).unwrap_err();
    assert_eq!(error.kind(), ErrorKind::General);
    assert_eq!(error.message(), "KeyError(Invalid key: title)");
    assert!(utils::parse_track_template("{num", &song(2, "Track"), &release()).is_err());
}

#[test]
fn default_file_name_is_number_and_name() {
    assert_eq!(utils::track_file_name(&song(3, "Song"), &release(), "").unwrap(), "3 - Song");
    assert_eq!(utils::track_file_name(&song(-12, "Song"), &release(), "").unwrap(), "-12 - Song");
    assert_eq!(utils::track_file_name(&song(0, ""), &release(), "").unwrap(), "0 - ");
    assert_eq!(
        utils::track_file_name(&song(i32::MIN, "x"), &release(), "").unwrap(),
        "-2147483648 - x"
    );
    assert_eq!(utils::track_file_name(&song(3, "Song"), &release(), "{track}").unwrap(), "Song");
}

#[test]
fn path_is_root_name_and_extension() {
    assert_eq!(utils::path_for("music/Artist/Album", "1 - Song"), "music/Artist/Album/1 - Song.mp3");
    assert_eq!(utils::path_for("music/", "1 - Song"), "music/1 - Song.mp3");
    assert_eq!(utils::path_for("", "1 - Song"), "1 - Song.mp3");
    assert_eq!(utils::path_for("/", "a"), "/a.mp3");
    assert_eq!(utils::path_for("dir", "1 - Mr. Jones"), "dir/1 - Mr. Jones.mp3");
}

#[test]
fn make_path_uses_default_name_or_template() {
    assert_eq!(
        utils::make_path(&song(1, "Song"), &release(), "out", "").unwrap(),
        "out/1 - Song.mp3"
    );
    assert_eq!(
        utils::make_path(&song(1, "Song"), &release(), "out", "{artist} - {track}").unwrap(),
        "out/The Artist - Song.mp3"
    );
    assert!(utils::make_path(&song(1, "Song"), &release(), "out", "{nope}").is_err());
}

#[test]
fn track_path_refuses_an_existing_file() {
    assert_eq!(
        utils::track_path(&song(1, "Song"), &release(), "out", "", false).unwrap(),
        "out/1 - Song.mp3"
    );
    let error = utils::track_path(&song(1, "Song"), &release(), "out", "", true).unwrap_err();
    assert_eq!(error.kind(), ErrorKind::FileExist);
    assert_eq!(error.message(), "File out/1 - Song.mp3 already exist!");
    let error = utils::track_path(&song(1, "Song"), &release(), "out", "{nope}", true).unwrap_err();
    assert_eq!(error.kind(), ErrorKind::General);
}

#[test]
fn errors_are_equal_when_of_the_same_kind() {
    assert!(Error::Http("a".to_string()) == Error::Http("b".to_string()));
    assert!(Error::Http("a".to_string()) != Error::IO("a".to_string()));
    assert_eq!(Error::general("why").message(), "why");
    assert_eq!(Error::Tag("bad frame".to_string()).clone().message(), "bad frame");
    assert_eq!(Error::Scrape("s".to_string()).kind(), ErrorKind::Scrape);
    assert_eq!(Error::Thread("t".to_string()).kind(), ErrorKind::Thread);
}

#[test]
fn timestamp_fields_lie_on_the_calendar() {
    for text in [
        "28 Sep 2014 04:19:31 GMT",
        "31 Dec 1999 23:59:59 GMT",
        "01 Jan 0001 00:00:00 X",
        "28 Sep 2014 23:59:60 GMT",
        "released December 31, 1999",
        "released January 1, 2000",
    ] {
        let stamp = utils::timestamp(text).unwrap();
        assert!(stamp.month.map_or(true, |month| (1..=12).contains(&month)));
        assert!(stamp.day.map_or(true, |day| (1..=31).contains(&day)));
        assert!(stamp.hour.map_or(true, |hour| hour <= 23));
        assert!(stamp.minute.map_or(true, |minute| minute <= 59));
        assert!(stamp.second.map_or(true, |second| second <= 59));
    }
    assert_eq!(utils::timestamp("13 Foo 2014 04:19:31 GMT"), None);
    assert_eq!(utils::timestamp("released September 31, 2014"), None);
}
