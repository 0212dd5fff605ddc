use sunny::completion::{Action, Outcome, Pipeline, Reply, Stage};
use sunny::error::{Error, ErrorKind};
use sunny::models::{AlbumInfo, Track};
use sunny::multi_dl::{Completion, Downloader, Event, TransferRequest};
use sunny::utils::{Lyrics, Picture, TagFields, Timestamp};

fn request(num: i32, name: &str) -> TransferRequest {
    TransferRequest {
        track: Track {
            num,
            name: name.to_string(),
            url: format!("https://cdn/{}.mp3", name),
            lyrics: Some(format!("words of {}", name)),
        },
        album: AlbumInfo {
            artist: "Artist".to_string(),
            album: "Album".to_string(),
            release_date: "28 Sep 2014 04:19:31 GMT".to_string(),
            tags: Some("rock, pop".to_string()),
            album_art_url: Some("https://img/cover.jpg".to_string()),
        },
        root: "out/Artist/Album".to_string(),
    }
}

fn data(token: usize, bytes: &[u8]) -> Event {
    Event::Data { token, bytes: bytes.to_vec() }
}

fn finished(token: usize) -> Event {
    Event::Finished { token, result: Ok(()) }
}

fn failed(token: usize, words: &str) -> Event {
    Event::Finished { token, result: Err(words.to_string()) }
}

#[test]
fn tokens_are_given_out_in_order_and_never_twice() {
    let mut engine = Downloader::new();
    assert!(engine.is_idle());
    assert_eq!(engine.register(request(1, "a")), 0);
    assert_eq!(engine.register(request(2, "b")), 1);
    assert_eq!(engine.handle(&finished(0)).map(|done| done.token), Some(0));
    assert_eq!(engine.register(request(3, "c")), 2);
    assert_eq!(engine.registered(), 3);
    assert_eq!(engine.active(), 2);
    assert!(!engine.is_in_flight(0));
    assert!(engine.is_in_flight(1) && engine.is_in_flight(2));
    assert!(!engine.is_in_flight(3));
    assert!(!engine.is_idle());
}

#[test]
fn completion_carries_the_buffer_and_the_request() {
    let mut engine = Downloader::new();
    let first = engine.register(request(1, "a"));
    let second = engine.register(request(2, "b"));
    assert_eq!(engine.handle(&data(second, &[1, 2])), None);
    assert_eq!(engine.handle(&data(first, &[9])), None);
    assert_eq!(engine.handle(&Event::Progress { token: second, total: 5, received: 2 }), None);
    assert_eq!(engine.handle(&data(second, &[3, 4, 5])), None);
    assert_eq!(
        engine.handle(&finished(second)),
        Some(Completion { token: second, request: request(2, "b"), result: Ok(vec![1, 2, 3, 4, 5]) })
    );
    assert_eq!(engine.active(), 1);
    assert_eq!(
        engine.handle(&failed(first, "Timeout was reached")),
        Some(Completion {
            token: first,
            request: request(1, "a"),
            result: Err("Timeout was reached".to_string())
        })
    );
    assert!(engine.is_idle());
}

#[test]
fn a_transfer_completes_only_once() {
    let mut engine = Downloader::new();
    let token = engine.register(request(1, "a"));
    assert!(engine.handle(&finished(token)).is_some());
    assert_eq!(engine.handle(&finished(token)), None);
    assert_eq!(engine.handle(&failed(token, "late")), None);
    assert_eq!(engine.handle(&data(token, &[1])), None);
    assert!(engine.is_idle());
}

#[test]
fn events_for_unknown_tokens_change_nothing() {
    let mut engine = Downloader::new();
    assert_eq!(engine.handle(&finished(0)), None);
    let token = engine.register(request(1, "a"));
    assert_eq!(engine.handle(&finished(7)), None);
    assert_eq!(engine.handle(&data(7, &[1, 2, 3])), None);
    assert_eq!(engine.handle(&Event::Progress { token: usize::MAX, total: 1, received: 1 }), None);
    assert_eq!(engine.active(), 1);
    assert_eq!(
        engine.handle(&finished(token)),
        Some(Completion { token, request: request(1, "a"), result: Ok(vec![]) })
    );
}

#[test]
fn run_completes_every_request_once() {
    let requests = vec![request(1, "a"), request(2, "b"), request(3, "c")];
    let events = vec![
        data(0, &[1]),
        data(2, &[7, 8]),
        finished(2),
        data(1, &[4]),
        finished(2),
        failed(1, "Couldn't resolve host name"),
        data(0, &[2]),
        finished(5),
        finished(0),
        finished(1),
    ];
    let done = Downloader::run(&requests, &events);
    assert_eq!(
        done,
        vec![
            Completion { token: 2, request: request(3, "c"), result: Ok(vec![7, 8]) },
            Completion {
                token: 1,
                request: request(2, "b"),
                result: Err("Couldn't resolve host name".to_string())
            },
            Completion { token: 0, request: request(1, "a"), result: Ok(vec![1, 2]) },
        ]
    );
    assert_eq!(done.len(), requests.len());
    for token in 0..requests.len() {
        let of_token: Vec<&Completion> = done.iter().filter(|one| one.token == token).collect();
        assert_eq!(of_token.len(), 1);
        assert_eq!(of_token[0].request, requests[token]);
    }
}

#[test]
fn run_without_events_completes_nothing() {
    assert_eq!(Downloader::run(&vec![request(1, "a")], &vec![]), vec![]);
    assert_eq!(Downloader::run(&vec![], &vec![finished(0)]), vec![]);
}

fn completion(result: Result<Vec<u8>, String>) -> Completion {
    Completion { token: 4, request: request(3, "Song"), result }
}

fn expected_tags(cover: Option<Vec<u8>>) -> TagFields {
    TagFields {
        title: "Song".to_string(),
        track: 3,
        album: "Album".to_string(),
        artist: "Artist".to_string(),
        album_artist: "Artist".to_string(),
        genre: Some("rock, pop".to_string()),
        lyrics: Some(Lyrics {
            lang: "eng".to_string(),
            description: String::new(),
            text: "words of Song".to_string(),
        }),
        cover: cover.map(|data| Picture {
            mime_type: "image/jpeg".to_string(),
            description: String::new(),
            data,
        }),
        date_recorded: Some(Timestamp {
            year: 2014,
            month: Some(9),
            day: Some(28),
            hour: Some(4),
            minute: Some(19),
            second: Some(31),
        }),
    }
}

#[test]
fn existing_destination_is_skipped_and_nothing_is_written() {
    let (mut pipeline, first) = Pipeline::start(completion(Ok(vec![1, 2, 3])), "");
    assert_eq!(first, Action::CheckExists { path: "out/Artist/Album/3 - Song.mp3".to_string() });
    let next = pipeline.advance(Reply::Exists(true));
    match &next {
        Action::Report(Outcome::Skipped(error)) => {
            assert_eq!(error.kind(), ErrorKind::FileExist);
            assert_eq!(error.message(), "File out/Artist/Album/3 - Song.mp3 already exist!");
        }
        other => panic!("unexpected action {:?}", other),
    }
    assert!(pipeline.is_done());
    assert_eq!(pipeline.payload, vec![1, 2, 3]);
}

#[test]
fn engine_goes_on_after_a_skipped_track() {
    let requests = vec![request(1, "a"), request(2, "b")];
    let done = Downloader::run(&requests, &vec![data(0, &[1]), finished(0), data(1, &[2]), finished(1)]);
    let mut outcomes = vec![];
    for (one, exists) in done.into_iter().zip([true, false]) {
        let (mut pipeline, _) = Pipeline::start(one, "");
        let mut action = pipeline.advance(Reply::Exists(exists));
        loop {
            action = match action {
                Action::WriteFile { .. } => pipeline.advance(Reply::Written(Ok(()))),
                Action::FetchCover { .. } => pipeline.advance(Reply::Cover(None)),
                Action::WriteTags { .. } => pipeline.advance(Reply::Tagged(Ok(()))),
                Action::Report(outcome) => {
                    outcomes.push(outcome);
                    break;
                }
                Action::CheckExists { .. } => panic!("asked twice"),
            };
        }
    }
    assert_eq!(outcomes.len(), 2);
    assert!(matches!(&outcomes[0], Outcome::Skipped(Error::FileExist(path)) if path == "out/Artist/Album/1 - a.mp3"));
    assert_eq!(outcomes[1], Outcome::Saved("out/Artist/Album/2 - b.mp3".to_string()));
}

#[test]
fn free_destination_is_written_tagged_and_saved() {
    let (mut pipeline, _) = Pipeline::start(completion(Ok(vec![1, 2, 3])), "{artist} - {track}");
    assert_eq!(pipeline.stage, Stage::CheckingPath);
    assert_eq!(
        pipeline.advance(Reply::Exists(false)),
        Action::WriteFile { path: "out/Artist/Album/Artist - Song.mp3".to_string(), bytes: vec![1, 2, 3] }
    );
    assert_eq!(pipeline.stage, Stage::Writing);
    assert_eq!(
        pipeline.advance(Reply::Written(Ok(()))),
        Action::FetchCover { url: "https://img/cover.jpg".to_string() }
    );
    assert_eq!(
        pipeline.advance(Reply::Cover(Some(vec![0xff, 0xd8]))),
        Action::WriteTags {
            path: "out/Artist/Album/Artist - Song.mp3".to_string(),
            tags: expected_tags(Some(vec![0xff, 0xd8]))
        }
    );
    assert_eq!(
        pipeline.advance(Reply::Tagged(Ok(()))),
        Action::Report(Outcome::Saved("out/Artist/Album/Artist - Song.mp3".to_string()))
    );
    assert!(pipeline.is_done());
}

#[test]
fn cover_that_could_not_be_fetched_is_left_out() {
    let (mut pipeline, _) = Pipeline::start(completion(Ok(vec![1])), "");
    pipeline.advance(Reply::Exists(false));
    pipeline.advance(Reply::Written(Ok(())));
    assert_eq!(
        pipeline.advance(Reply::Cover(None)),
        Action::WriteTags { path: "out/Artist/Album/3 - Song.mp3".to_string(), tags: expected_tags(None) }
    );
}

#[test]
fn release_without_cover_address_is_tagged_at_once() {
    for address in [None, Some(String::new())] {
        let mut one = completion(Ok(vec![1]));
        one.request.album.album_art_url = address;
        one.request.album.release_date = "some day".to_string();
        one.request.album.tags = None;
        one.request.track.lyrics = None;
        let (mut pipeline, _) = Pipeline::start(one, "");
        pipeline.advance(Reply::Exists(false));
        let mut tags = expected_tags(None);
        tags.date_recorded = None;
        tags.genre = None;
        tags.lyrics = None;
        assert_eq!(
            pipeline.advance(Reply::Written(Ok(()))),
            Action::WriteTags { path: "out/Artist/Album/3 - Song.mp3".to_string(), tags }
        );
    }
}

#[test]
fn failed_transfer_is_reported_with_the_address() {
    let (pipeline, action) = Pipeline::start(completion(Err("Timeout was reached".to_string())), "");
    match action {
        Action::Report(Outcome::Failed(error)) => {
            assert_eq!(error.kind(), ErrorKind::Http);
            assert_eq!(error.message(), "Timeout was reached - <https://cdn/Song.mp3>");
        }
        other => panic!("unexpected action {:?}", other),
    }
    assert!(pipeline.is_done());
}

#[test]
fn disk_and_tag_failures_are_told_apart() {
    let (mut pipeline, _) = Pipeline::start(completion(Ok(vec![1])), "");
    pipeline.advance(Reply::Exists(false));
    match pipeline.advance(Reply::Written(Err("disk full".to_string()))) {
        Action::Report(Outcome::Failed(error)) => {
            assert_eq!(error.kind(), ErrorKind::IO);
            assert_eq!(error.message(), "disk full");
        }
        other => panic!("unexpected action {:?}", other),
    }
    let (mut pipeline, _) = Pipeline::start(completion(Ok(vec![1])), "");
    pipeline.advance(Reply::Exists(false));
    pipeline.advance(Reply::Written(Ok(())));
    pipeline.advance(Reply::Cover(None));
    match pipeline.advance(Reply::Tagged(Err("bad frame".to_string()))) {
        Action::Report(Outcome::Failed(error)) => {
            assert_eq!(error.kind(), ErrorKind::Tag);
            assert_eq!(error.message(), "bad frame");
        }
        other => panic!("unexpected action {:?}", other),
    }
}

#[test]
fn bad_template_and_stray_replies_are_general_failures() {
    let (pipeline, action) = Pipeline::start(completion(Ok(vec![1])), "{nope}");
    assert!(pipeline.is_done());
    assert!(matches!(action, Action::Report(Outcome::Failed(Error::General(_)))));
    let (mut pipeline, _) = Pipeline::start(completion(Ok(vec![1])), "");
    match pipeline.advance(Reply::Tagged(Ok(()))) {
        Action::Report(Outcome::Failed(error)) => {
            assert_eq!(error.kind(), ErrorKind::General);
            assert_eq!(error.message(), "reply out of order");
        }
        other => panic!("unexpected action {:?}", other),
    }
    assert!(pipeline.is_done());
    assert!(matches!(
        pipeline.advance(Reply::Exists(false)),
        Action::Report(Outcome::Failed(Error::General(_)))
    ));
}

#[test]
fn tags_take_the_track_number_as_unsigned() {
    let mut one = request(-1, "Song");
    one.track.lyrics = None;
    let tags = sunny::utils::tag_mp3(None, None, &one.track, &one.album);
    assert_eq!(tags.track, u32::MAX);
    assert_eq!(tags.title, "Song");
    assert_eq!(tags.lyrics, None);
    assert_eq!(tags.cover, None);
    assert_eq!(tags.date_recorded, None);
    assert_eq!(sunny::completion::cover_art_url(&one.album), Some("https://img/cover.jpg".to_string()));
}

#[test]
fn loop_waits_a_second_while_transfers_run() {
    let mut engine = Downloader::new();
    assert_eq!(engine.pause(0), None);
    assert_eq!(engine.pause(3), None);
    let token = engine.register(request(1, "a"));
    assert_eq!(engine.pause(1), Some(1));
    assert_eq!(engine.pause(u32::MAX), Some(1));
    assert_eq!(engine.pause(0), None);
    engine.handle(&finished(token));
    assert_eq!(engine.pause(1), None);
    assert_eq!(engine.pause(0), None);
}

#[test]
fn progress_is_shown_under_artist_album_and_track() {
    assert_eq!(request(1, "Song").label(), "Artist/Album/Song");
}

#[test]
fn payload_is_the_data_of_its_own_token_in_order() {
    let requests = vec![request(1, "a"), request(2, "b")];
    let events = vec![
        data(1, &[10]),
        data(0, &[1, 2]),
        data(1, &[11, 12]),
        data(5, &[99]),
        data(0, &[]),
        data(0, &[3]),
        finished(0),
        data(0, &[4]),
        data(1, &[13]),
        finished(1),
    ];
    let done = Downloader::run(&requests, &events);
    assert_eq!(done.len(), 2);
    assert_eq!(done[0].result, Ok(vec![1, 2, 3]));
    assert_eq!(done[1].result, Ok(vec![10, 11, 12, 13]));
}
