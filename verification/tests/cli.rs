use sunny::cli;
use sunny::cli::{Config, SearchType, UrlError};
use sunny::error::ErrorKind;
use sunny::logger::Logger;
use sunny::models::{Album, AlbumInfo, Track};
use sunny::multi_dl::TransferRequest;
use sunny::search;
use sunny::search::{KeyedHit, SearchHit};
use sunny::utils;

fn config(skip: Option<Vec<&str>>, format: Option<&str>) -> Config {
    Config {
        url: "artist".to_string(),
        path: None,
        track_format: format.map(|text| text.to_string()),
        skip_albums: skip.map(|titles| titles.into_iter().map(|title| title.to_string()).collect()),
        list_available: false,
        search: false,
        search_type: SearchType::Artists,
        dry_run: false,
    }
}

fn album(title: &str, tracks: &[&str]) -> Album {
    Album {
        artist: "Artist".to_string(),
        album: title.to_string(),
        release_date: "released September 28, 2014".to_string(),
        tracks: tracks
            .iter()
            .enumerate()
            .map(|(index, name)| Track {
                num: index as i32 + 1,
                name: name.to_string(),
                url: format!("https://cdn/{}", name),
                lyrics: None,
            })
            .collect(),
        tags: Some("folk".to_string()),
        album_art_url: None,
        artist_art_url: Some("https://img/artist.jpg".to_string()),
    }
}

#[test]
fn search_types_have_their_filters() {
    assert_eq!(SearchType::All.as_search_filter(), "");
    assert_eq!(SearchType::Artists.as_search_filter(), "b");
    assert_eq!(SearchType::Labels.as_search_filter(), "b");
    assert_eq!(SearchType::Albums.as_search_filter(), "a");
    assert_eq!(SearchType::Tracks.as_search_filter(), "t");
}

#[test]
fn absolute_address_is_taken_in_normal_form() {
    assert_eq!(
        cli::parse_url("https://artist.bandcamp.com/music").unwrap(),
        "https://artist.bandcamp.com/music"
    );
    assert_eq!(cli::parse_url("HTTPS://Artist.Bandcamp.com").unwrap(), "https://artist.bandcamp.com/");
}

#[test]
fn user_name_becomes_the_address_of_the_music_page() {
    assert_eq!(cli::parse_url("artist").unwrap(), "https://artist.bandcamp.com/music");
    assert_eq!(
        cli::resolve_url("someone", Err(UrlError::RelativeWithoutBase)).unwrap(),
        "https://someone.bandcamp.com/music"
    );
}

#[test]
fn other_address_errors_are_general_errors() {
    let error = cli::parse_url("https://").unwrap_err();
    assert_eq!(error.kind(), ErrorKind::General);
    assert_eq!(error.message(), "empty host");
    let error = cli::resolve_url("x", Err(UrlError::Other("invalid IPv4 address".to_string()))).unwrap_err();
    assert_eq!(error.message(), "invalid IPv4 address");
    assert_eq!(cli::resolve_url("x", Ok("y".to_string())).unwrap(), "y");
}

#[test]
fn albums_on_the_skip_list_are_skipped() {
    let settings = config(Some(vec!["One", "Two"]), None);
    assert!(settings.skips(&album("One", &[])));
    assert!(settings.skips(&album("Two", &[])));
    assert!(!settings.skips(&album("one", &[])));
    assert!(!settings.skips(&album("Three", &[])));
    assert!(!config(None, None).skips(&album("One", &[])));
    assert!(!config(Some(vec![]), None).skips(&album("One", &[])));
}

#[test]
fn file_name_format_defaults_to_empty() {
    assert_eq!(config(None, None).file_name_format(), "");
    assert_eq!(config(None, Some("{track}")).file_name_format(), "{track}");
}

#[test]
fn every_track_of_an_album_gets_a_request() {
    let release = album("Title", &["a", "b"]);
    let info = AlbumInfo {
        artist: "Artist".to_string(),
        album: "Title".to_string(),
        release_date: "released September 28, 2014".to_string(),
        tags: Some("folk".to_string()),
        album_art_url: None,
    };
    assert_eq!(release.info(), info);
    assert_eq!(
        cli::requests_for(&release, "out/Artist/Title"),
        vec![
            TransferRequest {
                track: release.tracks[0].clone(),
                album: info.clone(),
                root: "out/Artist/Title".to_string()
            },
            TransferRequest {
                track: release.tracks[1].clone(),
                album: info.clone(),
                root: "out/Artist/Title".to_string()
            },
        ]
    );
    assert_eq!(cli::requests_for(&album("Empty", &[]), "out"), vec![]);
}

#[test]
fn requests_with_existing_files_are_left_out() {
    let requests = cli::requests_for(&album("Title", &["a", "b", "c"]), "out");
    let kept = cli::skip_existing(requests.clone(), &vec![true, false, true]);
    assert_eq!(kept, vec![requests[1].clone()]);
    assert_eq!(cli::skip_existing(requests.clone(), &vec![]), requests);
    assert_eq!(cli::skip_existing(requests.clone(), &vec![true]), requests[1..].to_vec());
    assert_eq!(cli::skip_existing(requests.clone(), &vec![true, true, true, true]), vec![]);
}

#[test]
fn directory_of_a_release_is_artist_and_album() {
    let info = album("Title", &[]).info();
    assert_eq!(utils::prepare_directory(Some("/music"), &info), "/music/Artist/Title");
    assert_eq!(utils::prepare_directory(Some("music/"), &info), "music/Artist/Title");
    assert_eq!(utils::prepare_directory(None, &info), "Artist/Title");
    assert_eq!(utils::join_path("", "x"), "x");
}

#[test]
fn template_is_checked_with_empty_values() {
    assert_eq!(utils::validate_format("{num} - {track}"), Ok(" - ".to_string()));
    assert_eq!(utils::validate_format("[{album}|{artist}]"), Ok("[|]".to_string()));
    assert_eq!(utils::validate_format("{year}"), Err("KeyError(Invalid key: year)".to_string()));
    assert!(utils::validate_format("{track").is_err());
}

#[test]
fn search_request_names_query_and_filter() {
    assert_eq!(
        search::search_request("the band", "b"),
        "{\"search_text\":\"the band\",\"search_filter\":\"b\",\"full_page\":true,\"fan_id\":null}"
    );
    assert_eq!(
        search::search_request("", ""),
        "{\"search_text\":\"\",\"search_filter\":\"\",\"full_page\":true,\"fan_id\":null}"
    );
}

fn hit(name: &str, location: &str) -> SearchHit {
    SearchHit {
        name: name.to_string(),
        location: location.to_string(),
        genre: "rock".to_string(),
        url: format!("https://{}.example", location),
    }
}

fn response(names_and_places: &[(&str, &str)]) -> String {
    let items: Vec<String> = names_and_places
        .iter()
        .map(|(name, place)| {
            format!(
                "{{\"name\":\"{}\",\"location\":\"{}\",\"genre_name\":\"rock\",\"item_url_root\":\"https://{}.example\"}}",
                name, place, place
            )
        })
        .collect();
    format!("{{\"auto\":{{\"results\":[{}]}}}}", items.join(","))
}

#[test]
fn hits_are_read_in_the_order_of_the_answer() {
    assert_eq!(
        search::read_hits(&response(&[("b", "1"), ("A", "2")])),
        vec![hit("b", "1"), hit("A", "2")]
    );
    assert_eq!(search::read_hits("{\"auto\":{\"results\":[]}}"), vec![]);
    assert_eq!(search::read_hits("{}"), vec![]);
    assert_eq!(search::read_hits(""), vec![]);
}

#[test]
fn hits_are_ordered_by_name_without_regard_to_case() {
    let hits = vec![hit("beta", "1"), hit("Alpha", "2"), hit("BETA", "3"), hit("alpha", "4"), hit("", "5")];
    assert_eq!(
        search::sort_hits(&hits),
        vec![hit("", "5"), hit("Alpha", "2"), hit("alpha", "4"), hit("beta", "1"), hit("BETA", "3")]
    );
    assert_eq!(search::sort_hits(&vec![]), vec![]);
    assert_eq!(
        search::sort_hits(&vec![hit("ab", "1"), hit("a", "2"), hit("B", "3"), hit("É", "4"), hit("z", "5")]),
        vec![hit("a", "2"), hit("ab", "1"), hit("B", "3"), hit("z", "5"), hit("É", "4")]
    );
    assert_eq!(
        search::search_results(&response(&[("b", "1"), ("A", "2")])),
        vec![hit("A", "2"), hit("b", "1")]
    );
}

#[test]
fn hits_are_shown_as_a_table_under_the_header() {
    let header: Vec<String> =
        ["Name", "Location", "Genre", "Url"].iter().map(|cell| cell.to_string()).collect();
    let text = search::search_report(&header, &response(&[("b", "1"), ("A", "2")])).unwrap();
    let border = "\0".repeat(47);
    let lines: Vec<&str> = text.lines().collect();
    assert_eq!(
        lines,
        vec![
            border.as_str(),
            "\0 Name \0 Location \0 Genre \0 Url               \0",
            "\0 A    \0 2        \0 rock  \0 https://2.example \0",
            "\0 b    \0 1        \0 rock  \0 https://1.example \0",
            border.as_str(),
        ]
    );
    assert!(!text.ends_with('\n'));
    assert_eq!(search::search_report(&header, "{\"auto\":{\"results\":[]}}"), None);
    assert_eq!(search::search_report(&header, "nothing"), None);
}

#[test]
fn log_lines_carry_the_label_of_their_level() {
    assert_eq!(Logger::error("broken".to_string()), "ERROR: broken");
    assert_eq!(Logger::warn("careful".to_string()), "WARN: careful");
    assert_eq!(Logger::info("done".to_string()), "INFO: done");
    assert_eq!(Logger::Warn.log(String::new()), "WARN: ");
    assert_eq!(Logger::Info.label(), "INFO");
    assert!(!Logger::Info.to_stderr());
    assert!(Logger::Warn.to_stderr() && Logger::Error.to_stderr());
}

#[test]
fn leading_tilde_is_expanded_to_the_home_directory() {
    assert_eq!(cli::expand_tilde("~/music", "/home/me"), "/home/me/music");
    assert_eq!(cli::expand_tilde("~", "/home/me"), "/home/me");
    assert_eq!(cli::expand_tilde("~/a~b", "/h"), "/h/a/hb");
    assert_eq!(cli::expand_tilde("music/~", "/home/me"), "music/~");
    assert_eq!(cli::expand_tilde("", "/home/me"), "");
    assert_eq!(cli::expand_tilde("/tmp/é", "/home/me"), "/tmp/é");
    assert_eq!(cli::expand_tilde("~é~", "ü"), "üéü");
}

#[test]
fn user_agent_names_program_system_and_transport() {
    assert_eq!(
        utils::user_agent("sunny", "0.3.1", "linux", "x86_64", "8.5.0"),
        "sunny/0.3.1 (linux, x86_64) curl/8.5.0"
    );
}

#[test]
fn catalog_is_shown_as_a_tree() {
    let albums = vec![album("First", &["a", "b"]), album("Second", &[]), album("Third", &["c"])];
    assert_eq!(
        utils::print_as_tree(&albums),
        vec![
            "Artist",
            "  ├── First",
            "  │   ├── a",
            "  │   └── b",
            "  ├── Second",
            "  └── Third",
            "      └── c",
        ]
    );
    assert_eq!(utils::print_as_tree(&vec![]), vec!["Noting to print"]);
    assert_eq!(utils::print_as_tree(&vec![album("Only", &[])]), vec!["Artist", "  └── Only"]);
}

#[test]
fn entries_are_ordered_by_their_keys() {
    let entry = |key: &str, place: &str| KeyedHit { key: key.to_string(), hit: hit("same", place) };
    let entries = vec![entry("b", "1"), entry("a", "2"), entry("b", "3"), entry("", "4"), entry("a", "5")];
    assert_eq!(
        search::sort_keyed(&entries),
        vec![entry("", "4"), entry("a", "2"), entry("a", "5"), entry("b", "1"), entry("b", "3")]
    );
    assert_eq!(search::sort_keyed(&vec![]), vec![]);
    assert_eq!(search::sort_keyed(&vec![entry("Z", "1"), entry("a", "2")]), vec![entry("Z", "1"), entry("a", "2")]);
}

#[test]
fn skipped_requests_are_told_of() {
    let requests = cli::requests_for(&album("Title", &["a", "b", "c"]), "out");
    assert_eq!(
        cli::skip_notices(&requests, &vec![true, false, true]),
        vec!["`a` already exist, skipping".to_string(), "`c` already exist, skipping".to_string()]
    );
    assert_eq!(cli::skip_notices(&requests, &vec![]), Vec::<String>::new());
    assert_eq!(cli::skip_notices(&requests, &vec![false, true, false, true]), vec!["`b` already exist, skipping".to_string()]);
    for flags in [vec![], vec![true], vec![true, false, true], vec![true, true, true, true]] {
        let kept = cli::skip_existing(requests.clone(), &flags);
        assert_eq!(kept.len() + cli::skip_notices(&requests, &flags).len(), requests.len());
    }
}

#[test]
fn run_after_a_skip_completes_only_the_missing_files() {
    let requests = cli::requests_for(&album("Title", &["a", "b", "c"]), "out");
    let kept = cli::skip_existing(requests.clone(), &vec![false, true, false]);
    let events = vec![
        sunny::multi_dl::Event::Data { token: 1, bytes: vec![3] },
        sunny::multi_dl::Event::Finished { token: 0, result: Ok(()) },
        sunny::multi_dl::Event::Finished { token: 1, result: Ok(()) },
        sunny::multi_dl::Event::Finished { token: 2, result: Ok(()) },
    ];
    let done = sunny::multi_dl::Downloader::run(&kept, &events);
    assert_eq!(done.len(), 2);
    assert_eq!(done[0].request, requests[0]);
    assert_eq!(done[1].request, requests[2]);
    assert_eq!(done[1].result, Ok(vec![3]));
    assert!(done.iter().all(|one| one.request != requests[1]));
}
