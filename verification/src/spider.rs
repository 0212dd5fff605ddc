//! The catalog scraper: from the text of a page to albums and tracks.
//!
//! A release page carries its data twice. The structured metadata block is the
//! catalog's source; the data attributes of the player script serve only to
//! find the audio URL of a track whose structured entry lacks one.

use vstd::prelude::*;
use crate::address::{join_url, url_joined};
use crate::error::{Error, ErrorKind, ErrorView};
use crate::html::{
    attr_values, decode_entities, first_inner, html_attr_values, html_entities_decoded,
    html_first_inner, html_match_count, match_count,
};
use crate::json::{
    i32_at, is_valid, items_at, json_i32_at, json_is_valid, json_items_at, json_text_at,
    json_texts_at, plain_path, text_at, texts_at,
};
use crate::models::{albums_view, tracks_of, Album, AlbumView, Track, TrackView};
use crate::text::{join, joined, optional_views_of, text_of, trim, trimmed, views_of};

verus! {

/// One entry of the player script's track list.
#[derive(Debug, PartialEq, Eq)]
pub struct EmbeddedTrack {
    pub title: String,
    /// The URL of the 128 kbit/s MP3 stream; empty where the page has none.
    pub file: String,
}

/// What an [`EmbeddedTrack`] holds, as mathematical values.
pub struct EmbeddedTrackView {
    pub title: Seq<char>,
    pub file: Seq<char>,
}

impl View for EmbeddedTrack {
    type V = EmbeddedTrackView;

    open spec fn view(&self) -> EmbeddedTrackView {
        EmbeddedTrackView { title: self.title@, file: self.file@ }
    }
}

/// What the data attributes of the player script say of a release. A field
/// that the page lacks is empty.
#[derive(Debug, PartialEq, Eq)]
pub struct EmbeddedRelease {
    /// `artist` of the attribute `data-embed`.
    pub artist: String,
    /// `album_title` of the attribute `data-embed`.
    pub album_title: String,
    /// `current.title` of the attribute `data-tralbum`.
    pub current_title: String,
    /// `album_release_date` of the attribute `data-tralbum`.
    pub release_date: String,
    /// `trackinfo` of the attribute `data-tralbum`, in page order.
    pub tracks: Vec<EmbeddedTrack>,
}

/// What an [`EmbeddedRelease`] holds, as mathematical values.
pub struct EmbeddedReleaseView {
    pub artist: Seq<char>,
    pub album_title: Seq<char>,
    pub current_title: Seq<char>,
    pub release_date: Seq<char>,
    pub tracks: Seq<EmbeddedTrackView>,
}

impl View for EmbeddedRelease {
    type V = EmbeddedReleaseView;

    open spec fn view(&self) -> EmbeddedReleaseView {
        EmbeddedReleaseView {
            artist: self.artist@,
            album_title: self.album_title@,
            current_title: self.current_title@,
            release_date: self.release_date@,
            tracks: self.tracks@.map_values(|track: EmbeddedTrack| track@),
        }
    }
}

/// The attribute of the first matching element, where there is an element and
/// it has the attribute.
pub open spec fn first_value(values: Seq<Option<Seq<char>>>) -> Option<Seq<char>> {
    if values.len() > 0 {
        values[0]
    } else {
        None
    }
}

/// The entry of the player script's track list that the JSON text `item`
/// describes.
pub open spec fn embedded_track_of(item: Seq<char>) -> EmbeddedTrackView {
    EmbeddedTrackView {
        title: json_text_at(item, "title"@),
        file: json_text_at(item, "file.mp3-128"@),
    }
}

/// What the player script of `document` says of the release: the first
/// element that matches `script[data-tralbum]` is read, its two data
/// attributes are trimmed and queried as JSON.
pub open spec fn embedded_of(document: Seq<char>) -> EmbeddedReleaseView {
    let embed = first_value(
        html_attr_values(document, "script[data-tralbum]"@, "data-embed"@),
    );
    let tralbum = first_value(
        html_attr_values(document, "script[data-tralbum]"@, "data-tralbum"@),
    );
    EmbeddedReleaseView {
        artist: match embed {
            Some(data) => json_text_at(trimmed(data), "artist"@),
            None => Seq::empty(),
        },
        album_title: match embed {
            Some(data) => json_text_at(trimmed(data), "album_title"@),
            None => Seq::empty(),
        },
        current_title: match tralbum {
            Some(data) => json_text_at(trimmed(data), "current.title"@),
            None => Seq::empty(),
        },
        release_date: match tralbum {
            Some(data) => json_text_at(trimmed(data), "album_release_date"@),
            None => Seq::empty(),
        },
        tracks: match tralbum {
            Some(data) => json_items_at(trimmed(data), "trackinfo"@).map_values(
                |item: Seq<char>| embedded_track_of(item),
            ),
            None => Seq::empty(),
        },
    }
}

/// The number of the track at index `index` of a list: its position counted
/// from 1, held at the largest `i32` for a list longer than that.
pub open spec fn track_number(index: int) -> int {
    if index < i32::MAX {
        index + 1
    } else {
        i32::MAX as int
    }
}

/// The track that entry `index` of the player script's list stands for.
pub open spec fn embedded_track(track: EmbeddedTrackView, index: int) -> TrackView {
    TrackView { num: track_number(index), name: track.title, url: track.file, lyrics: None }
}

/// The album that the player script describes. The title of `data-embed` is
/// preferred; the current title of `data-tralbum` stands in where it is
/// empty. Tracks are numbered by their place in the list.
pub open spec fn embedded_album(release: EmbeddedReleaseView) -> AlbumView {
    AlbumView {
        artist: release.artist,
        album: if release.album_title.len() > 0 {
            release.album_title
        } else {
            release.current_title
        },
        release_date: release.release_date,
        tracks: Seq::new(
            release.tracks.len(),
            |index: int| embedded_track(release.tracks[index], index),
        ),
        tags: None,
        album_art_url: None,
        artist_art_url: None,
    }
}

/// The value of the attribute on the first matching element, trimmed.
fn first_trimmed(values: &Vec<Option<String>>) -> (data: Option<String>)
    ensures
        text_of(data) == match first_value(optional_views_of(values@)) {
            Some(text) => Some(trimmed(text)),
            None => None,
        },
{
    if values.len() > 0 {
        match &values[0] {
            Some(text) => Some(trim(text.as_str())),
            None => None,
        }
    } else {
        None
    }
}

/// The paths by which the data of the player script is read are plain.
proof fn lemma_player_paths_are_plain()
    ensures
        plain_path("artist"@),
        plain_path("album_title"@),
        plain_path("current.title"@),
        plain_path("album_release_date"@),
        plain_path("trackinfo"@),
        plain_path("title"@),
        plain_path("file.mp3-128"@),
{
    reveal_strlit("artist");
    reveal_strlit("album_title");
    reveal_strlit("current.title");
    reveal_strlit("album_release_date");
    reveal_strlit("trackinfo");
    reveal_strlit("title");
    reveal_strlit("file.mp3-128");
}

/// Reads the player script of a page.
pub fn read_embedded(document: &str) -> (release: EmbeddedRelease)
    ensures
        release@ == embedded_of(document@),
{
    proof {
        lemma_player_paths_are_plain();
    }
    let embed = first_trimmed(&attr_values(document, "script[data-tralbum]", "data-embed"));
    let tralbum = first_trimmed(&attr_values(document, "script[data-tralbum]", "data-tralbum"));
    let mut release = EmbeddedRelease {
        artist: String::new(),
        album_title: String::new(),
        current_title: String::new(),
        release_date: String::new(),
        tracks: Vec::new(),
    };
    if let Some(data) = &embed {
        release.artist = text_at(data.as_str(), "artist");
        release.album_title = text_at(data.as_str(), "album_title");
    }
    if let Some(data) = &tralbum {
        release.current_title = text_at(data.as_str(), "current.title");
        release.release_date = text_at(data.as_str(), "album_release_date");
        let items = items_at(data.as_str(), "trackinfo");
        let mut tracks: Vec<EmbeddedTrack> = Vec::new();
        let mut i: usize = 0;
        while i < items.len()
            invariant
                i <= items.len(),
                tracks.len() == i,
                forall|k: int|
                    0 <= k < i ==> (#[trigger] tracks[k])@ == embedded_track_of(items[k]@),
            decreases items.len() - i,
        {
            proof {
                lemma_player_paths_are_plain();
            }
            let item = items[i].as_str();
            tracks.push(
                EmbeddedTrack { title: text_at(item, "title"), file: text_at(item, "file.mp3-128") },
            );
            i += 1;
        }
        assert(tracks@.map_values(|track: EmbeddedTrack| track@) =~= views_of(items@).map_values(
            |item: Seq<char>| embedded_track_of(item),
        ));
        release.tracks = tracks;
    }
    assert(release@.tracks =~= embedded_of(document@).tracks);
    release
}

/// Builds the album that the player script describes.
pub fn album_from_embedded(release: &EmbeddedRelease) -> (album: Album)
    ensures
        album@ == embedded_album(release@),
{
    let title = if release.album_title.as_str().is_empty() {
        release.current_title.clone()
    } else {
        release.album_title.clone()
    };
    let mut tracks: Vec<Track> = Vec::new();
    let mut i: usize = 0;
    while i < release.tracks.len()
        invariant
            i <= release.tracks.len(),
            tracks.len() == i,
            forall|k: int|
                0 <= k < i ==> (#[trigger] tracks[k])@ == embedded_track(release.tracks[k]@, k),
        decreases release.tracks.len() - i,
    {
        let num: i32 = if i < 0x7fff_ffff {
            (i + 1) as i32
        } else {
            i32::MAX
        };
        tracks.push(
            Track {
                num,
                name: release.tracks[i].title.clone(),
                url: release.tracks[i].file.clone(),
                lyrics: None,
            },
        );
        i += 1;
    }
    let album = Album {
        artist: release.artist.clone(),
        album: title,
        release_date: release.release_date.clone(),
        tracks,
        tags: None,
        album_art_url: None,
        artist_art_url: None,
    };
    assert(album@.tracks =~= embedded_album(release@).tracks);
    album
}

/// Scrapes a page by the data attributes of its player script. A page
/// without such a script gives an album without data.
pub fn scrape_by_data_tralbum(document: &str) -> (album: Album)
    ensures
        album@ == embedded_album(embedded_of(document@)),
{
    let release = read_embedded(document);
    album_from_embedded(&release)
}

/// One entry of the structured metadata's track list.
#[derive(Debug, PartialEq, Eq)]
pub struct ListedTrack {
    /// The position that the entry declares.
    pub position: i32,
    pub name: String,
    /// The URL of the 128 kbit/s MP3 stream; empty where the entry has none.
    pub url: String,
    pub lyrics: String,
}

/// What a [`ListedTrack`] holds, as mathematical values.
pub struct ListedTrackView {
    pub position: int,
    pub name: Seq<char>,
    pub url: Seq<char>,
    pub lyrics: Seq<char>,
}

impl View for ListedTrack {
    type V = ListedTrackView;

    open spec fn view(&self) -> ListedTrackView {
        ListedTrackView {
            position: self.position as int,
            name: self.name@,
            url: self.url@,
            lyrics: self.lyrics@,
        }
    }
}

/// What the structured metadata block of a page says of a release. A field
/// that the block lacks is empty.
#[derive(Debug, PartialEq, Eq)]
pub struct StructuredRelease {
    pub name: String,
    pub keywords: Vec<String>,
    pub date_published: String,
    pub image: String,
    pub artist: String,
    pub artist_image: String,
    /// The audio URL of the release itself: set on the page of a single track.
    pub file_url: String,
    /// The track list; empty on the page of a single track.
    pub tracks: Vec<ListedTrack>,
}

/// What a [`StructuredRelease`] holds, as mathematical values.
pub struct StructuredReleaseView {
    pub name: Seq<char>,
    pub keywords: Seq<Seq<char>>,
    pub date_published: Seq<char>,
    pub image: Seq<char>,
    pub artist: Seq<char>,
    pub artist_image: Seq<char>,
    pub file_url: Seq<char>,
    pub tracks: Seq<ListedTrackView>,
}

impl View for StructuredRelease {
    type V = StructuredReleaseView;

    open spec fn view(&self) -> StructuredReleaseView {
        StructuredReleaseView {
            name: self.name@,
            keywords: views_of(self.keywords@),
            date_published: self.date_published@,
            image: self.image@,
            artist: self.artist@,
            artist_image: self.artist_image@,
            file_url: self.file_url@,
            tracks: self.tracks@.map_values(|track: ListedTrack| track@),
        }
    }
}

/// The view of an optional structured release.
pub open spec fn structured_view(release: Option<StructuredRelease>) -> Option<
    StructuredReleaseView,
> {
    match release {
        Some(value) => Some(value@),
        None => None,
    }
}

/// The view of an optional album.
pub open spec fn album_view(album: Option<Album>) -> Option<AlbumView> {
    match album {
        Some(value) => Some(value@),
        None => None,
    }
}

/// The view of an optional track.
pub open spec fn track_view(track: Option<Track>) -> Option<TrackView> {
    match track {
        Some(value) => Some(value@),
        None => None,
    }
}

/// The entry of the track list that the JSON text `item` describes.
pub open spec fn listed_track_of(item: Seq<char>) -> ListedTrackView {
    ListedTrackView {
        position: json_i32_at(item, "position"@) as int,
        name: json_text_at(item, "item.name"@),
        url: json_text_at(item, "item.additionalProperty.#(name=file_mp3-128).value"@),
        lyrics: json_text_at(item, "item.recordingOf.lyrics.text"@),
    }
}

/// The release that the JSON text of a structured metadata block describes.
pub open spec fn structured_from_json(json: Seq<char>) -> StructuredReleaseView {
    StructuredReleaseView {
        name: json_text_at(json, "name"@),
        keywords: json_texts_at(json, "keywords"@),
        date_published: json_text_at(json, "datePublished"@),
        image: json_text_at(json, "image"@),
        artist: json_text_at(json, "byArtist.name"@),
        artist_image: json_text_at(json, "byArtist.image"@),
        file_url: json_text_at(json, "additionalProperty.#(name=file_mp3-128).value"@),
        tracks: json_items_at(json, "track.itemListElement"@).map_values(
            |item: Seq<char>| listed_track_of(item),
        ),
    }
}

/// What the structured metadata of `document` says: the contents of the first
/// element that matches `script[type='application/ld+json']`, where there is
/// one and it holds valid JSON.
pub open spec fn structured_of(document: Seq<char>) -> Option<StructuredReleaseView> {
    match html_first_inner(document, "script[type='application/ld+json']"@) {
        Some(json) => if json_is_valid(json) {
            Some(structured_from_json(json))
        } else {
            None
        },
        None => None,
    }
}

/// The first track of the list that has exactly this name.
pub open spec fn first_named(tracks: Seq<TrackView>, name: Seq<char>) -> Option<TrackView>
    decreases tracks.len(),
{
    if tracks.len() == 0 {
        None
    } else if tracks[0].name == name {
        Some(tracks[0])
    } else {
        first_named(tracks.drop_first(), name)
    }
}

/// The keywords that make up the tag line: each trimmed, the empty ones left
/// out, in their order.
pub open spec fn kept_keywords(keywords: Seq<Seq<char>>) -> Seq<Seq<char>>
    decreases keywords.len(),
{
    if keywords.len() == 0 {
        Seq::empty()
    } else if trimmed(keywords.last()).len() == 0 {
        kept_keywords(keywords.drop_last())
    } else {
        kept_keywords(keywords.drop_last()).push(trimmed(keywords.last()))
    }
}

/// The first of two addresses that can be used: the track's own where it is
/// not empty, else the other where there is one and it is not empty.
pub open spec fn usable_url(own: Seq<char>, other: Option<Seq<char>>) -> Option<Seq<char>> {
    if own.len() > 0 {
        Some(own)
    } else {
        match other {
            Some(url) => if url.len() > 0 {
                Some(url)
            } else {
                None
            },
            None => None,
        }
    }
}

/// The audio URL of an entry of the track list: its own where, decoded, it is
/// not empty; else the one of the first fallback track with the entry's name,
/// decoded, where there is such a track and that is not empty.
pub open spec fn listed_url(track: ListedTrackView, fallback: Seq<TrackView>) -> Option<
    Seq<char>,
> {
    usable_url(
        html_entities_decoded(track.url),
        match first_named(fallback, track.name) {
            Some(found) => Some(html_entities_decoded(found.url)),
            None => None,
        },
    )
}

/// The tracks that the entries of a track list give, in order: an entry whose
/// audio URL cannot be found gives none.
pub open spec fn listed_tracks(tracks: Seq<ListedTrackView>, fallback: Seq<TrackView>) -> Seq<
    TrackView,
>
    decreases tracks.len(),
{
    if tracks.len() == 0 {
        Seq::empty()
    } else {
        let entry = tracks.last();
        match listed_url(entry, fallback) {
            Some(url) => listed_tracks(tracks.drop_last(), fallback).push(
                TrackView {
                    num: entry.position,
                    name: html_entities_decoded(entry.name),
                    url,
                    lyrics: Some(html_entities_decoded(entry.lyrics)),
                },
            ),
            None => listed_tracks(tracks.drop_last(), fallback),
        }
    }
}

/// The audio URL of the page of a single track: the release's own where,
/// decoded, it is not empty; else the one of the first fallback track with the
/// release's name, where there is such a track and its URL is not empty.
pub open spec fn single_url(release: StructuredReleaseView, fallback: Seq<TrackView>) -> Option<
    Seq<char>,
> {
    usable_url(
        html_entities_decoded(release.file_url),
        match first_named(fallback, release.name) {
            Some(found) => Some(found.url),
            None => None,
        },
    )
}

/// The album that the structured metadata describes, with `tracks` as its
/// track list.
pub open spec fn structured_album_with(
    release: StructuredReleaseView,
    tracks: Seq<TrackView>,
) -> AlbumView {
    AlbumView {
        artist: release.artist,
        album: release.name,
        release_date: release.date_published,
        tracks,
        tags: Some(joined(kept_keywords(release.keywords), ", "@)),
        album_art_url: Some(release.image),
        artist_art_url: Some(release.artist_image),
    }
}

/// The album that the structured metadata describes, `fallback` being the
/// tracks that the player script lists.
///
/// A release with a track list gives a track for each entry whose audio URL
/// can be found. A release without one is the page of a single track: it gives
/// that track as number 1, or no album at all where its audio URL cannot be
/// found.
pub open spec fn structured_album(
    release: StructuredReleaseView,
    fallback: Seq<TrackView>,
) -> Option<AlbumView> {
    if release.tracks.len() > 0 {
        Some(structured_album_with(release, listed_tracks(release.tracks, fallback)))
    } else {
        match single_url(release, fallback) {
            Some(url) => Some(
                structured_album_with(
                    release,
                    seq![TrackView { num: 1, name: release.name, url, lyrics: None }],
                ),
            ),
            None => None,
        }
    }
}

/// The album of a page, where it has one.
pub open spec fn album_of(document: Seq<char>) -> Option<AlbumView> {
    match structured_of(document) {
        Some(release) => structured_album(
            release,
            embedded_album(embedded_of(document)).tracks,
        ),
        None => None,
    }
}

/// Every track has an audio URL.
pub open spec fn all_have_urls(tracks: Seq<TrackView>) -> bool {
    forall|k: int| 0 <= k < tracks.len() ==> (#[trigger] tracks[k]).url.len() > 0
}

/// The paths by which the structured metadata is read are plain.
proof fn lemma_metadata_paths_are_plain()
    ensures
        plain_path("track.itemListElement"@),
        plain_path("position"@),
        plain_path("item.name"@),
        plain_path("item.additionalProperty.#(name=file_mp3-128).value"@),
        plain_path("item.recordingOf.lyrics.text"@),
        plain_path("name"@),
        plain_path("keywords"@),
        plain_path("datePublished"@),
        plain_path("image"@),
        plain_path("byArtist.name"@),
        plain_path("byArtist.image"@),
        plain_path("additionalProperty.#(name=file_mp3-128).value"@),
{
    reveal_strlit("track.itemListElement");
    reveal_strlit("position");
    reveal_strlit("item.name");
    reveal_strlit("item.additionalProperty.#(name=file_mp3-128).value");
    reveal_strlit("item.recordingOf.lyrics.text");
    reveal_strlit("name");
    reveal_strlit("keywords");
    reveal_strlit("datePublished");
    reveal_strlit("image");
    reveal_strlit("byArtist.name");
    reveal_strlit("byArtist.image");
    reveal_strlit("additionalProperty.#(name=file_mp3-128).value");
}

/// Reads the structured metadata block of a page.
pub fn read_structured(document: &str) -> (release: Option<StructuredRelease>)
    ensures
        structured_view(release) == structured_of(document@),
{
    let json = match first_inner(document, "script[type='application/ld+json']") {
        Some(json) => json,
        None => {
            return None;
        },
    };
    let json = json.as_str();
    if !is_valid(json) {
        return None;
    }
    proof {
        lemma_metadata_paths_are_plain();
    }
    let items = items_at(json, "track.itemListElement");
    let mut tracks: Vec<ListedTrack> = Vec::new();
    let mut i: usize = 0;
    while i < items.len()
        invariant
            i <= items.len(),
            tracks.len() == i,
            forall|k: int| 0 <= k < i ==> (#[trigger] tracks[k])@ == listed_track_of(items[k]@),
        decreases items.len() - i,
    {
        proof {
            lemma_metadata_paths_are_plain();
        }
        let item = items[i].as_str();
        tracks.push(
            ListedTrack {
                position: i32_at(item, "position"),
                name: text_at(item, "item.name"),
                url: text_at(item, "item.additionalProperty.#(name=file_mp3-128).value"),
                lyrics: text_at(item, "item.recordingOf.lyrics.text"),
            },
        );
        i += 1;
    }
    assert(tracks@.map_values(|track: ListedTrack| track@) =~= views_of(items@).map_values(
        |item: Seq<char>| listed_track_of(item),
    ));
    Some(
        StructuredRelease {
            name: text_at(json, "name"),
            keywords: texts_at(json, "keywords"),
            date_published: text_at(json, "datePublished"),
            image: text_at(json, "image"),
            artist: text_at(json, "byArtist.name"),
            artist_image: text_at(json, "byArtist.image"),
            file_url: text_at(json, "additionalProperty.#(name=file_mp3-128).value"),
            tracks,
        },
    )
}

/// Finds the first track of the list that has exactly this name.
pub fn find_track_by_name(tracks: &Vec<Track>, name: &str) -> (found: Option<Track>)
    ensures
        track_view(found) == first_named(tracks_of(tracks@), name@),
{
    let wanted = name.to_string();
    let ghost all = tracks_of(tracks@);
    let mut i: usize = 0;
    assert(all.skip(0) =~= all);
    while i < tracks.len()
        invariant
            i <= tracks.len(),
            wanted@ == name@,
            all == tracks_of(tracks@),
            first_named(all, name@) == first_named(all.skip(i as int), name@),
        decreases tracks.len() - i,
    {
        assert(all.skip(i as int)[0] == tracks[i as int]@);
        if tracks[i].name == wanted {
            return Some(tracks[i].clone());
        }
        assert(all.skip(i as int).drop_first() =~= all.skip(i + 1));
        i += 1;
    }
    None
}

/// The tag line of a release: its keywords trimmed, the empty ones left out,
/// joined by a comma and a space.
pub fn tag_line(keywords: &Vec<String>) -> (line: String)
    ensures
        line@ == joined(kept_keywords(views_of(keywords@)), ", "@),
{
    let mut kept: Vec<String> = Vec::new();
    let ghost all = views_of(keywords@);
    let mut i: usize = 0;
    while i < keywords.len()
        invariant
            i <= keywords.len(),
            all == views_of(keywords@),
            views_of(kept@) == kept_keywords(all.take(i as int)),
        decreases keywords.len() - i,
    {
        assert(all.take(i + 1).drop_last() =~= all.take(i as int));
        assert(all.take(i + 1).last() == keywords[i as int]@);
        let keyword = trim(keywords[i].as_str());
        if !keyword.as_str().is_empty() {
            let ghost before = views_of(kept@);
            kept.push(keyword);
            assert(views_of(kept@) =~= before.push(keyword@));
        }
        i += 1;
    }
    assert(all.take(keywords.len() as int) =~= all);
    join(&kept, ", ")
}

/// Chooses between the address that a track has of its own, already
/// decoded, and the one that the fallback has for it: its own where it is
/// not empty, else the other where there is one and it is not empty.
pub fn pick_url(own: String, other: Option<String>) -> (url: Option<String>)
    ensures
        text_of(url) == usable_url(own@, text_of(other)),
        url matches Some(found) ==> found@.len() > 0,
{
    if !own.as_str().is_empty() {
        return Some(own);
    }
    match other {
        Some(found) => {
            if found.as_str().is_empty() {
                None
            } else {
                Some(found)
            }
        },
        None => None,
    }
}

/// Finds the audio URL of an entry of the track list.
fn resolve_listed_url(track: &ListedTrack, fallback: &Vec<Track>) -> (url: Option<String>)
    ensures
        text_of(url) == listed_url(track@, tracks_of(fallback@)),
{
    let own = decode_entities(track.url.as_str());
    let other = match find_track_by_name(fallback, track.name.as_str()) {
        Some(found) => Some(decode_entities(found.url.as_str())),
        None => None,
    };
    pick_url(own, other)
}

/// Finds the audio URL of the page of a single track.
fn resolve_single_url(release: &StructuredRelease, fallback: &Vec<Track>) -> (url: Option<String>)
    ensures
        text_of(url) == single_url(release@, tracks_of(fallback@)),
{
    let own = decode_entities(release.file_url.as_str());
    let other = match find_track_by_name(fallback, release.name.as_str()) {
        Some(found) => Some(found.url),
        None => None,
    };
    pick_url(own, other)
}

/// Builds the album that the structured metadata describes. An entry of the
/// track list without an audio URL takes the URL of the fallback track of the
/// same name; where there is none the entry is left out, so that no track of
/// the result is without a URL.
pub fn album_from_structured(release: &StructuredRelease, fallback: &Vec<Track>) -> (album: Option<
    Album,
>)
    ensures
        album_view(album) == structured_album(release@, tracks_of(fallback@)),
        album matches Some(found) ==> all_have_urls(found@.tracks),
{
    let ghost others = tracks_of(fallback@);
    let mut tracks: Vec<Track> = Vec::new();
    if release.tracks.len() > 0 {
        let ghost entries = release@.tracks;
        let mut i: usize = 0;
        while i < release.tracks.len()
            invariant
                i <= release.tracks.len(),
                entries == release@.tracks,
                others == tracks_of(fallback@),
                tracks_of(tracks@) == listed_tracks(entries.take(i as int), others),
                all_have_urls(tracks_of(tracks@)),
            decreases release.tracks.len() - i,
        {
            assert(entries.take(i + 1).drop_last() =~= entries.take(i as int));
            assert(entries.take(i + 1).last() == release.tracks[i as int]@);
            let entry = &release.tracks[i];
            if let Some(url) = resolve_listed_url(entry, fallback) {
                let ghost before = tracks_of(tracks@);
                let track = Track {
                    num: entry.position,
                    name: decode_entities(entry.name.as_str()),
                    url,
                    lyrics: Some(decode_entities(entry.lyrics.as_str())),
                };
                tracks.push(track);
                assert(tracks_of(tracks@) =~= before.push(track@));
            }
            i += 1;
        }
        assert(entries.take(release.tracks.len() as int) =~= entries);
    } else {
        match resolve_single_url(release, fallback) {
            Some(url) => {
                let track = Track { num: 1, name: release.name.clone(), url, lyrics: None };
                tracks.push(track);
                assert(tracks_of(tracks@) =~= seq![track@]);
            },
            None => {
                return None;
            },
        }
    }
    let album = Album {
        artist: release.artist.clone(),
        album: release.name.clone(),
        release_date: release.date_published.clone(),
        tracks,
        tags: Some(tag_line(&release.keywords)),
        album_art_url: Some(release.image.clone()),
        artist_art_url: Some(release.artist_image.clone()),
    };
    Some(album)
}

/// Scrapes a page by its structured metadata block, with the player script
/// as the source of audio URLs that the block lacks. A page without such a
/// block, or with one that is not valid JSON, has no album.
pub fn scrape_by_application_ld_json(document: &str) -> (album: Option<Album>)
    ensures
        album_view(album) == album_of(document@),
        album matches Some(found) ==> all_have_urls(found@.tracks),
{
    match read_structured(document) {
        Some(release) => {
            let fallback = scrape_by_data_tralbum(document);
            album_from_structured(&release, &fallback.tracks)
        },
        None => None,
    }
}

/// The album of a page, where it has one.
pub fn get_album(document: &str) -> (album: Option<Album>)
    ensures
        album_view(album) == album_of(document@),
        album matches Some(found) ==> all_have_urls(found@.tracks),
{
    scrape_by_application_ld_json(document)
}

/// What each anchor of a page links to: the link of an anchor that has one,
/// resolved against the base address, where it can be resolved.
pub open spec fn resolved_links(base: Seq<char>, hrefs: Seq<Option<Seq<char>>>) -> Seq<
    Option<Seq<char>>,
> {
    hrefs.map_values(
        |href: Option<Seq<char>>|
            match href {
                Some(link) => url_joined(base, link),
                None => None,
            },
    )
}

/// The items that are there, in order.
pub open spec fn present(items: Seq<Option<Seq<char>>>) -> Seq<Seq<char>>
    decreases items.len(),
{
    if items.len() == 0 {
        Seq::empty()
    } else {
        match items.last() {
            Some(item) => present(items.drop_last()).push(item),
            None => present(items.drop_last()),
        }
    }
}

/// The address of each release that a discography page links to: the link of
/// every anchor that has one, resolved against the base address, in the
/// order of the anchors. An anchor without a link, and a link that cannot be
/// resolved, gives none.
pub open spec fn joined_links(base: Seq<char>, hrefs: Seq<Option<Seq<char>>>) -> Seq<Seq<char>> {
    present(resolved_links(base, hrefs))
}

/// The release pages that a discography page links to: the links of the
/// anchors that match `#music-grid > li > a`, resolved against the base
/// address. The base address is the `content` of the first element that
/// matches `meta[property='og:url']`; a page without it links to nothing.
pub open spec fn links_of(document: Seq<char>) -> Seq<Seq<char>> {
    match first_value(html_attr_values(document, "meta[property='og:url']"@, "content"@)) {
        Some(base) => joined_links(
            base,
            html_attr_values(document, "#music-grid > li > a"@, "href"@),
        ),
        None => Seq::empty(),
    }
}

/// Keeps the links that could be resolved, in order.
pub fn present_links(resolved: &Vec<Option<String>>) -> (links: Vec<String>)
    ensures
        views_of(links@) == present(optional_views_of(resolved@)),
        links.len() <= resolved.len(),
{
    let mut links: Vec<String> = Vec::new();
    let ghost all = optional_views_of(resolved@);
    let mut i: usize = 0;
    while i < resolved.len()
        invariant
            i <= resolved.len(),
            all == optional_views_of(resolved@),
            views_of(links@) == present(all.take(i as int)),
            links.len() <= i,
        decreases resolved.len() - i,
    {
        assert(all.take(i + 1).drop_last() =~= all.take(i as int));
        assert(all.take(i + 1).last() == text_of(resolved[i as int]));
        if let Some(link) = &resolved[i] {
            let ghost before = views_of(links@);
            let kept = link.clone();
            links.push(kept);
            assert(views_of(links@) =~= before.push(kept@));
        }
        i += 1;
    }
    assert(all.take(resolved.len() as int) =~= all);
    links
}

/// Resolves each link that is there against the base address and keeps
/// those that can be resolved.
pub fn album_links(base: &str, hrefs: &Vec<Option<String>>) -> (links: Vec<String>)
    ensures
        views_of(links@) == joined_links(base@, optional_views_of(hrefs@)),
        links.len() <= hrefs.len(),
{
    let mut resolved: Vec<Option<String>> = Vec::new();
    let mut i: usize = 0;
    while i < hrefs.len()
        invariant
            i <= hrefs.len(),
            resolved.len() == i,
            forall|k: int|
                0 <= k < i ==> text_of(#[trigger] resolved[k]) == match text_of(hrefs[k]) {
                    Some(link) => url_joined(base@, link),
                    None => None,
                },
        decreases hrefs.len() - i,
    {
        let address = match &hrefs[i] {
            Some(href) => join_url(base, href.as_str()),
            None => None,
        };
        resolved.push(address);
        i += 1;
    }
    assert(optional_views_of(resolved@) =~= resolved_links(base@, optional_views_of(hrefs@)));
    present_links(&resolved)
}

/// Scrapes the links to release pages from a discography page.
pub fn get_all_album_links(document: &str) -> (links: Vec<String>)
    ensures
        views_of(links@) == links_of(document@),
{
    let bases = attr_values(document, "meta[property='og:url']", "content");
    if bases.len() > 0 {
        if let Some(base) = &bases[0] {
            let hrefs = attr_values(document, "#music-grid > li > a", "href");
            return album_links(base.as_str(), &hrefs);
        }
    }
    let links: Vec<String> = Vec::new();
    assert(views_of(links@) =~= Seq::<Seq<char>>::empty());
    links
}

/// The shape of a fetched page.
#[derive(Clone, Copy, Debug, PartialEq, Eq, Structural)]
pub enum PageKind {
    /// The page of one release: it has a track-info marker.
    Release,
    /// An index of releases: it has a release grid and no track-info marker.
    Discography,
    /// Neither.
    Unknown,
}

/// The shape of a page with so many track-info markers and release grids.
pub open spec fn kind_of_counts(track_info: usize, music_grid: usize) -> PageKind {
    if track_info > 0 {
        PageKind::Release
    } else if music_grid > 0 {
        PageKind::Discography
    } else {
        PageKind::Unknown
    }
}

/// The shape of a page: the elements that match `#trackInfo` and
/// `#music-grid` decide.
pub open spec fn page_kind_of(document: Seq<char>) -> PageKind {
    kind_of_counts(
        html_match_count(document, "#trackInfo"@),
        html_match_count(document, "#music-grid"@),
    )
}

/// Tells the shape of a page from the number of its markers.
pub fn classify(track_info: usize, music_grid: usize) -> (kind: PageKind)
    ensures
        kind == kind_of_counts(track_info, music_grid),
{
    if track_info > 0 {
        PageKind::Release
    } else if music_grid > 0 {
        PageKind::Discography
    } else {
        PageKind::Unknown
    }
}

/// Tells the shape of a page.
pub fn page_kind(document: &str) -> (kind: PageKind)
    ensures
        kind == page_kind_of(document@),
{
    classify(match_count(document, "#trackInfo"), match_count(document, "#music-grid"))
}

/// What remains to be done once the first page is there.
#[derive(Debug, PartialEq, Eq)]
pub enum FetchPlan {
    /// The page was a release: these are its albums, one or none.
    Albums(Vec<Album>),
    /// The page was a discography: these pages are to be fetched and scraped.
    Follow(Vec<String>),
}

/// What a [`FetchPlan`] holds, as mathematical values.
pub enum FetchPlanView {
    Albums(Seq<AlbumView>),
    Follow(Seq<Seq<char>>),
}

impl View for FetchPlan {
    type V = FetchPlanView;

    open spec fn view(&self) -> FetchPlanView {
        match self {
            FetchPlan::Albums(albums) => FetchPlanView::Albums(albums_view(albums@)),
            FetchPlan::Follow(links) => FetchPlanView::Follow(views_of(links@)),
        }
    }
}

/// The view of a plan or of the error in its place.
pub open spec fn plan_view(plan: Result<FetchPlan, Error>) -> Result<FetchPlanView, ErrorView> {
    match plan {
        Ok(value) => Ok(value@),
        Err(error) => Err(error@),
    }
}

/// What is to be done with a first page: a release is scraped, a discography
/// is followed, and any other page is an error.
pub open spec fn plan_of(document: Seq<char>) -> Result<FetchPlanView, ErrorView> {
    match page_kind_of(document) {
        PageKind::Release => Ok(
            FetchPlanView::Albums(
                match album_of(document) {
                    Some(album) => seq![album],
                    None => Seq::empty(),
                },
            ),
        ),
        PageKind::Discography => Ok(FetchPlanView::Follow(links_of(document))),
        PageKind::Unknown => Err(ErrorView { kind: ErrorKind::Scrape, detail: "Invalid page."@ }),
    }
}

/// The albums of the pages that were fetched, in the order of the pages. A
/// page that could not be fetched, and a page without an album, gives none.
pub open spec fn albums_of(pages: Seq<Option<Seq<char>>>) -> Seq<AlbumView>
    decreases pages.len(),
{
    if pages.len() == 0 {
        Seq::empty()
    } else {
        let rest = albums_of(pages.drop_last());
        match pages.last() {
            Some(document) => match album_of(document) {
                Some(album) => rest.push(album),
                None => rest,
            },
            None => rest,
        }
    }
}

/// Decides what to do with the first page that was fetched. A page that is
/// neither a release nor a discography is refused with a `Scrape` error.
pub fn fetch_plan(document: &str) -> (plan: Result<FetchPlan, Error>)
    ensures
        plan_view(plan) == plan_of(document@),
{
    match page_kind(document) {
        PageKind::Release => {
            let mut albums: Vec<Album> = Vec::new();
            if let Some(album) = get_album(document) {
                albums.push(album);
                assert(albums_view(albums@) =~= seq![album@]);
            } else {
                assert(albums_view(albums@) =~= Seq::<AlbumView>::empty());
            }
            Ok(FetchPlan::Albums(albums))
        },
        PageKind::Discography => Ok(FetchPlan::Follow(get_all_album_links(document))),
        PageKind::Unknown => Err(Error::Scrape("Invalid page.".to_string())),
    }
}

/// Scrapes the release pages of a discography. A page that could not be
/// fetched is `None`; it is passed over, as is a page that has no album, and
/// the others are not affected.
pub fn collect_albums(pages: &Vec<Option<String>>) -> (albums: Vec<Album>)
    ensures
        albums_view(albums@) == albums_of(optional_views_of(pages@)),
        albums.len() <= pages.len(),
{
    let mut albums: Vec<Album> = Vec::new();
    let ghost all = optional_views_of(pages@);
    let mut i: usize = 0;
    while i < pages.len()
        invariant
            i <= pages.len(),
            all == optional_views_of(pages@),
            albums_view(albums@) == albums_of(all.take(i as int)),
            albums.len() <= i,
        decreases pages.len() - i,
    {
        assert(all.take(i + 1).drop_last() =~= all.take(i as int));
        assert(all.take(i + 1).last() == text_of(pages[i as int]));
        if let Some(document) = &pages[i] {
            if let Some(album) = get_album(document.as_str()) {
                let ghost before = albums_view(albums@);
                albums.push(album);
                assert(albums_view(albums@) =~= before.push(album@));
            }
        }
        i += 1;
    }
    assert(all.take(pages.len() as int) =~= all);
    albums
}

/// The tracks of a track list are never more than its entries, and each has
/// an audio URL: an entry whose URL cannot be found is left out.
pub proof fn lemma_listed_tracks_have_urls(tracks: Seq<ListedTrackView>, fallback: Seq<TrackView>)
    ensures
        all_have_urls(listed_tracks(tracks, fallback)),
        listed_tracks(tracks, fallback).len() <= tracks.len(),
    decreases tracks.len(),
{
    if tracks.len() > 0 {
        lemma_listed_tracks_have_urls(tracks.drop_last(), fallback);
    }
}

/// An entry whose audio URL can be found is not left out: where that holds of
/// every entry, the album has as many tracks as the list has entries.
pub proof fn lemma_resolved_entries_are_kept(
    tracks: Seq<ListedTrackView>,
    fallback: Seq<TrackView>,
)
    requires
        forall|k: int| 0 <= k < tracks.len() ==> listed_url(#[trigger] tracks[k], fallback) is Some,
    ensures
        listed_tracks(tracks, fallback).len() == tracks.len(),
    decreases tracks.len(),
{
    if tracks.len() > 0 {
        assert forall|k: int| 0 <= k < tracks.drop_last().len() implies listed_url(
            #[trigger] tracks.drop_last()[k],
            fallback,
        ) is Some by {
            assert(tracks.drop_last()[k] == tracks[k]);
        }
        lemma_resolved_entries_are_kept(tracks.drop_last(), fallback);
        assert(listed_url(tracks[tracks.len() - 1], fallback) is Some);
    }
}

/// No album holds a track without an audio URL.
pub proof fn lemma_album_tracks_have_urls(release: StructuredReleaseView, fallback: Seq<TrackView>)
    ensures
        structured_album(release, fallback) matches Some(album) ==> all_have_urls(album.tracks),
{
    lemma_listed_tracks_have_urls(release.tracks, fallback);
}

/// The items that are there are never more than the items.
pub proof fn lemma_present_is_shorter(items: Seq<Option<Seq<char>>>)
    ensures
        present(items).len() <= items.len(),
    decreases items.len(),
{
    if items.len() > 0 {
        lemma_present_is_shorter(items.drop_last());
    }
}

/// Where every anchor has a link and every link can be resolved, the page
/// links to as many releases as it has anchors, in their order, each at the
/// address that its link resolves to.
pub proof fn lemma_every_resolved_link_is_kept(base: Seq<char>, hrefs: Seq<Option<Seq<char>>>)
    requires
        forall|k: int|
            0 <= k < hrefs.len() ==> (#[trigger] hrefs[k]) is Some && url_joined(
                base,
                hrefs[k]->0,
            ) is Some,
    ensures
        joined_links(base, hrefs).len() == hrefs.len(),
        forall|k: int|
            0 <= k < hrefs.len() ==> Some(#[trigger] joined_links(base, hrefs)[k]) == url_joined(
                base,
                hrefs[k]->0,
            ),
    decreases hrefs.len(),
{
    if hrefs.len() > 0 {
        let shorter = hrefs.drop_last();
        assert forall|k: int| 0 <= k < shorter.len() implies (#[trigger] shorter[k]) is Some
            && url_joined(base, shorter[k]->0) is Some by {
            assert(shorter[k] == hrefs[k]);
        }
        lemma_every_resolved_link_is_kept(base, shorter);
        assert(resolved_links(base, hrefs).drop_last() =~= resolved_links(base, shorter));
        assert(hrefs[hrefs.len() - 1] is Some);
        assert forall|k: int| 0 <= k < hrefs.len() implies Some(
            #[trigger] joined_links(base, hrefs)[k],
        ) == url_joined(base, hrefs[k]->0) by {
            if k < shorter.len() {
                assert(joined_links(base, hrefs)[k] == joined_links(base, shorter)[k]);
                assert(shorter[k] == hrefs[k]);
            }
        }
    }
}

} // verus!
