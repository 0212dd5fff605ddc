use sunny::search;
use sunny::spider;

fn escape(text: &str) -> String {
    text.replace('&', "&amp;").replace('\'', "&#39;")
}

#[test]
fn truncated_player_data_never_panics() {
    let data = "{\"current\":{\"title\":\"Cur\\\"rent \\u00e9\"},\"album_release_date\":\"01 Jan 2001 00:00:00 GMT\",\"trackinfo\":[{\"title\":\"One\",\"file\":{\"mp3-128\":\"https://t4/one\"}},{\"title\":\"Tw\\\\o\",\"file\":null},[1,2],\"x\",3]}";
    let cuts: Vec<usize> = data.char_indices().map(|(at, _)| at).collect();
    for cut in cuts {
        let page = format!(
            "<script data-tralbum='{}' data-embed='{}'></script>",
            escape(&data[..cut]),
            escape(&data[data.len() - cut..])
        );
        let release = spider::read_embedded(&page);
        let album = spider::album_from_embedded(&release);
        assert_eq!(album.tracks.len(), release.tracks.len());
    }
}

#[test]
fn truncated_search_answer_never_panics() {
    let data = "{\"auto\":{\"results\":[{\"name\":\"A\\\"b\",\"location\":\"x\",\"genre_name\":null,\"item_url_root\":\"u\"},{\"name\":[\"\\u00e9\"]},\"s\",7,true]}}";
    let header = vec!["N".to_string(), "L".to_string(), "G".to_string(), "U".to_string()];
    let cuts: Vec<usize> = data.char_indices().map(|(at, _)| at).collect();
    for cut in cuts {
        let hits = search::search_results(&data[..cut]);
        let report = search::search_report(&header, &data[..cut]);
        assert_eq!(hits.is_empty(), report.is_none());
        let _ = search::search_results(&data[data.len() - cut..]);
    }
}

#[test]
fn odd_json_texts_never_panic() {
    let samples = [
        "\"", "\"\\", "\"\\u", "\"\\u12", "{", "}", "[", "]", "{\"", "{\"a", "{\"a\"", "{\"a\":", "{\"a\":\"",
        "{\"a\":\"\\", "[\"", "[[[[", "{\"trackinfo\":[\"", "{\"trackinfo\":[{\"title\":\"", "nul", "tru", "-", "1e",
        "{\"current\":{\"title\":\"", "{\"current\":\"", "{\"artist\":\"\\u", "{\"artist\":\"\\ud83d\"}", "{\"artist\":}",
        "{\"auto\":{\"results\":[\"", "{\"auto\":{\"results\":[{\"name\":\"", "\u{0}", "é", "{\"é\":\"é", "\u{feff}{}",
    ];
    for sample in samples {
        let page = format!("<script data-tralbum='{}' data-embed='{}'></script>", escape(sample), escape(sample));
        let _ = spider::scrape_by_data_tralbum(&page);
        let _ = search::search_results(sample);
        let structured = format!("<script type=\"application/ld+json\">{}</script>", sample);
        let _ = spider::get_album(&structured);
    }
}

#[test]
fn odd_cells_are_rendered_without_panic() {
    let odd = [
        "", " ", "\n", "a\nb\n\nc", "\t", "\u{1b}[1mbold\u{1b}[0m", "\u{1b}[", "日本語のテキスト", "e\u{301}", "\u{0}",
        "\u{200b}", "🎵🎵", "a very long cell that goes on and on and on and on and on and on and on and on and on",
    ];
    for name in odd {
        for other in odd {
            let hits = vec![
                search::SearchHit {
                    name: name.to_string(),
                    location: other.to_string(),
                    genre: String::new(),
                    url: name.to_string(),
                },
                search::SearchHit {
                    name: other.to_string(),
                    location: String::new(),
                    genre: name.to_string(),
                    url: String::new(),
                },
            ];
            let header = vec![other.to_string(), name.to_string(), String::new(), "Url".to_string()];
            let sorted = search::sort_hits(&hits);
            assert_eq!(sorted.len(), 2);
            let _ = search::hits_table(&header, &sorted);
            let _ = search::hits_table(&vec![], &sorted);
            let _ = search::hits_table(&vec![name.to_string()], &vec![]);
        }
    }
}

#[test]
fn odd_templates_and_dates_never_panic() {
    let track = sunny::models::Track {
        num: 1,
        name: "n{a}me".to_string(),
        url: String::new(),
        lyrics: None,
    };
    let album = sunny::models::AlbumInfo {
        artist: "}".to_string(),
        album: "{".to_string(),
        release_date: String::new(),
        tags: None,
        album_art_url: None,
    };
    let odd = [
        "{", "}", "{}", "{{", "}}", "{{}}", "{:}", "{num:}", "{num:>}", "{num:>999999}", "{num:.3}", "{num:x}",
        "{track:^10.2}", "{track:é<5}", "{track:{num}}", "{ num }", "{num!r}", "{0}", "{num:+}", "{num:#x}", "é{é}",
        "{track:<18446744073709551616}", "{track:.18446744073709551616}", "\u{0}", "%d %b %Y",
    ];
    for sample in odd {
        let _ = sunny::utils::validate_format(sample);
        let _ = sunny::utils::make_path(&track, &album, sample, sample);
        let _ = sunny::utils::timestamp(sample);
        let _ = sunny::utils::timestamp(&format!("released {}", sample));
        let _ = sunny::cli::parse_url(sample);
    }
    for sample in ["released ", "released \u{0}", "released 9999999999 1, 1", "99999999999999999999 Sep 2014 04:19:31 GMT",
        "28 Sep 99999999999 04:19:31 GMT", "28 Sep +262144 04:19:31 GMT", "released September 28, -262145",
        "28 Sep 2014 23:59:60 GMT", "29 Feb 2015 00:00:00 GMT", "released December 31, 262142"] {
        let _ = sunny::utils::timestamp(sample);
    }
    assert_eq!(
        sunny::utils::timestamp("28 Sep 2014 23:59:60 GMT").map(|stamp| stamp.second),
        Some(Some(59))
    );
}

fn assert_utf8(text: &str) {
    assert!(std::str::from_utf8(text.as_bytes()).is_ok(), "not UTF-8: {:?}", text.as_bytes());
    assert_eq!(text.chars().rev().count(), text.chars().count());
}

#[test]
fn broken_escape_before_a_wide_character_gives_valid_text() {
    let page = "<script data-tralbum='{\"current\":{\"title\":\"\\u12\u{e9}x\"},\"trackinfo\":[{\"title\":\"\\u123\u{e9}\"}]}' data-embed='{\"artist\":\"\\u123\u{e9}\",\"album_title\":\"a\\u1\u{65e5}\u{672c}b\"}'></script>";
    let release = spider::read_embedded(page);
    assert_eq!(release.artist, "\u{fffd}\u{fffd}");
    assert_utf8(&release.artist);
    assert_utf8(&release.album_title);
    assert_utf8(&release.current_title);
    assert_eq!(release.tracks.len(), 1);
    assert_utf8(&release.tracks[0].title);
    let answer = "{\"auto\":{\"results\":[{\"name\":\"\\u123\u{e9}\",\"location\":\"\\u1\u{1f3b5}\"},{\"name\":\"B\"},{\"name\":\"a\"}]}}";
    let hits = search::search_results(answer);
    assert_eq!(hits.len(), 3);
    assert_eq!(hits[0].name, "a");
    assert_eq!(hits[1].name, "B");
    assert_eq!(hits[2].name, "\u{fffd}\u{fffd}");
    for hit in &hits {
        assert_utf8(&hit.name);
        assert_utf8(&hit.location);
    }
}

#[test]
fn cut_literal_before_a_wide_character_gives_valid_text() {
    for element in ["tru\u{e9}", "fals\u{e9}", "nul\u{e9}", "t\u{65e5}\u{672c}", "n\u{1f3b5}", "fa\u{1f3b5}\u{1f3b5}"] {
        let answer = format!("{{\"auto\":{{\"results\":[{},{{\"name\":\"b\"}}]}}}}", element);
        for hit in search::search_results(&answer) {
            assert_utf8(&hit.name);
            assert_utf8(&hit.location);
            assert_utf8(&hit.genre);
            assert_utf8(&hit.url);
        }
        let page = format!("<script data-tralbum='{{\"trackinfo\":[{},{{\"title\":\"b\"}}]}}'></script>", element);
        for track in spider::read_embedded(&page).tracks {
            assert_utf8(&track.title);
            assert_utf8(&track.file);
        }
    }
}

#[test]
fn unterminated_text_is_read_without_panic() {
    for text in ["\"abc", "\"", "{\"name\":\"abc", "[\"abc", "{\"auto\":{\"results\":\"abc", "{\"trackinfo\":\"x"] {
        let page = format!("<script data-tralbum='{}' data-embed='{}'></script>", escape(text), escape(text));
        let release = spider::read_embedded(&page);
        assert_utf8(&release.artist);
        assert_utf8(&release.current_title);
        let _ = search::search_results(text);
    }
}
