//! Tracks and albums, as the scraper produces them.

use vstd::prelude::*;
use crate::text::{text_of, views_of};

verus! {

/// What a [`Track`] holds, as mathematical values.
pub struct TrackView {
    pub num: int,
    pub name: Seq<char>,
    pub url: Seq<char>,
    pub lyrics: Option<Seq<char>>,
}

/// What an [`Album`] holds, as mathematical values.
pub struct AlbumView {
    pub artist: Seq<char>,
    pub album: Seq<char>,
    pub release_date: Seq<char>,
    pub tracks: Seq<TrackView>,
    pub tags: Option<Seq<char>>,
    pub album_art_url: Option<Seq<char>>,
    pub artist_art_url: Option<Seq<char>>,
}

/// The views of a sequence of tracks, in order.
pub open spec fn tracks_of(tracks: Seq<Track>) -> Seq<TrackView> {
    tracks.map_values(|track: Track| track@)
}

/// The names of the fields that `track` lacks, in the order name, num, url,
/// lyrics.
pub open spec fn missing_names(track: TrackView) -> Seq<Seq<char>> {
    (if track.name.len() == 0 { seq!["name"@] } else { seq![] })
        + (if track.num == 0 { seq!["num"@] } else { seq![] })
        + (if track.url.len() == 0 { seq!["url"@] } else { seq![] })
        + (if track.lyrics is None { seq!["lyrics"@] } else { seq![] })
}

/// The views of a sequence of albums, in order.
pub open spec fn albums_view(albums: Seq<Album>) -> Seq<AlbumView> {
    albums.map_values(|album: Album| album@)
}

/// A copy of an optional string.
pub fn clone_text(value: &Option<String>) -> (copy: Option<String>)
    ensures
        text_of(copy) == text_of(*value),
{
    match value {
        Some(text) => Some(text.clone()),
        None => None,
    }
}

/// A copy of a list of tracks.
pub fn clone_tracks(tracks: &Vec<Track>) -> (copy: Vec<Track>)
    ensures
        tracks_of(copy@) == tracks_of(tracks@),
{
    let mut copy: Vec<Track> = Vec::new();
    let mut i: usize = 0;
    while i < tracks.len()
        invariant
            i <= tracks.len(),
            copy.len() == i,
            forall|k: int| 0 <= k < i ==> (#[trigger] copy[k])@ == tracks[k]@,
        decreases tracks.len() - i,
    {
        copy.push(tracks[i].clone());
        i += 1;
    }
    assert(tracks_of(copy@) =~= tracks_of(tracks@));
    copy
}

/// One song of a release.
#[derive(Debug, PartialEq, Eq)]
pub struct Track {
    /// Position on the release, counted from 1.
    pub num: i32,
    pub name: String,
    /// Where the audio file is served.
    pub url: String,
    pub lyrics: Option<String>,
}

impl View for Track {
    type V = TrackView;

    open spec fn view(&self) -> TrackView {
        TrackView {
            num: self.num as int,
            name: self.name@,
            url: self.url@,
            lyrics: text_of(self.lyrics),
        }
    }
}

impl Clone for Track {
    fn clone(&self) -> (copy: Self)
        ensures
            copy@ == self@,
    {
        Track {
            num: self.num,
            name: self.name.clone(),
            url: self.url.clone(),
            lyrics: clone_text(&self.lyrics),
        }
    }
}

impl Default for Track {
    fn default() -> (track: Self)
        ensures
            track@ == (TrackView { num: 0, name: Seq::empty(), url: Seq::empty(), lyrics: None }),
    {
        Track { num: 0, name: String::new(), url: String::new(), lyrics: None }
    }
}

impl TrackView {
    /// A track can be downloaded only if it has a name and a URL.
    pub open spec fn has_missing_fields(self) -> bool {
        self.name.len() == 0 || self.url.len() == 0
    }
}

impl Track {
    /// Names the fields that are empty, zero or absent.
    pub fn missing_fields(&self) -> (missing: Vec<String>)
        ensures
            views_of(missing@) == missing_names(self@),
    {
        let mut missing: Vec<String> = Vec::new();
        if self.name.as_str().is_empty() {
            missing.push("name".to_string());
        }
        if self.num == 0 {
            missing.push("num".to_string());
        }
        if self.url.as_str().is_empty() {
            missing.push("url".to_string());
        }
        if self.lyrics.is_none() {
            missing.push("lyrics".to_string());
        }
        assert(views_of(missing@) =~= missing_names(self@));
        missing
    }

    /// Whether the name or the URL is empty: the two fields without which a
    /// track cannot be downloaded.
    pub fn has_missing_fields(&self) -> (missing: bool)
        ensures
            missing == self@.has_missing_fields(),
            missing <==> self.name@.len() == 0 || self.url@.len() == 0,
    {
        self.name.as_str().is_empty() || self.url.as_str().is_empty()
    }
}

/// A release: its metadata and its tracks in page order.
#[derive(Debug, PartialEq, Eq)]
pub struct Album {
    pub artist: String,
    pub album: String,
    pub release_date: String,
    pub tracks: Vec<Track>,
    pub tags: Option<String>,
    pub album_art_url: Option<String>,
    pub artist_art_url: Option<String>,
}

impl View for Album {
    type V = AlbumView;

    open spec fn view(&self) -> AlbumView {
        AlbumView {
            artist: self.artist@,
            album: self.album@,
            release_date: self.release_date@,
            tracks: tracks_of(self.tracks@),
            tags: text_of(self.tags),
            album_art_url: text_of(self.album_art_url),
            artist_art_url: text_of(self.artist_art_url),
        }
    }
}

impl AlbumView {
    /// An album without any data.
    pub open spec fn empty() -> AlbumView {
        AlbumView {
            artist: Seq::empty(),
            album: Seq::empty(),
            release_date: Seq::empty(),
            tracks: Seq::empty(),
            tags: None,
            album_art_url: None,
            artist_art_url: None,
        }
    }

    /// `self` with each field that is empty or absent taken from `other`.
    pub open spec fn merged(self, other: AlbumView) -> AlbumView {
        AlbumView {
            artist: if self.artist.len() == 0 { other.artist } else { self.artist },
            album: if self.album.len() == 0 { other.album } else { self.album },
            release_date: if self.release_date.len() == 0 {
                other.release_date
            } else {
                self.release_date
            },
            tracks: if self.tracks.len() == 0 { other.tracks } else { self.tracks },
            tags: if self.tags is None { other.tags } else { self.tags },
            album_art_url: if self.album_art_url is None {
                other.album_art_url
            } else {
                self.album_art_url
            },
            artist_art_url: if self.artist_art_url is None {
                other.artist_art_url
            } else {
                self.artist_art_url
            },
        }
    }
}

impl Clone for Album {
    fn clone(&self) -> (copy: Self)
        ensures
            copy@ == self@,
    {
        Album {
            artist: self.artist.clone(),
            album: self.album.clone(),
            release_date: self.release_date.clone(),
            tracks: clone_tracks(&self.tracks),
            tags: clone_text(&self.tags),
            album_art_url: clone_text(&self.album_art_url),
            artist_art_url: clone_text(&self.artist_art_url),
        }
    }
}

impl Default for Album {
    fn default() -> (album: Self)
        ensures
            album@ == AlbumView::empty(),
    {
        let album = Album {
            artist: String::new(),
            album: String::new(),
            release_date: String::new(),
            tracks: Vec::new(),
            tags: None,
            album_art_url: None,
            artist_art_url: None,
        };
        assert(album@.tracks =~= Seq::empty());
        album
    }
}

impl Album {
    /// Fills the fields of `self` that are empty or absent from `other` and
    /// leaves every populated field as it is. A `tags` that is present counts
    /// as populated even when its text is empty.
    pub fn update(&mut self, other: Self)
        ensures
            final(self)@ == old(self)@.merged(other@),
    {
        if self.album.as_str().is_empty() {
            self.album = other.album;
        }
        if self.artist.as_str().is_empty() {
            self.artist = other.artist;
        }
        if self.release_date.as_str().is_empty() {
            self.release_date = other.release_date;
        }
        if self.tracks.is_empty() {
            self.tracks = other.tracks;
        }
        if self.tags.is_none() {
            self.tags = other.tags;
        }
        if self.album_art_url.is_none() {
            self.album_art_url = other.album_art_url;
        }
        if self.artist_art_url.is_none() {
            self.artist_art_url = other.artist_art_url;
        }
    }
}

/// The data of a release under which each of its tracks is filed and tagged.
#[derive(Debug, PartialEq, Eq)]
pub struct AlbumInfo {
    pub artist: String,
    pub album: String,
    pub release_date: String,
    pub tags: Option<String>,
    pub album_art_url: Option<String>,
}

/// What an [`AlbumInfo`] holds, as mathematical values.
pub struct AlbumInfoView {
    pub artist: Seq<char>,
    pub album: Seq<char>,
    pub release_date: Seq<char>,
    pub tags: Option<Seq<char>>,
    pub album_art_url: Option<Seq<char>>,
}

impl View for AlbumInfo {
    type V = AlbumInfoView;

    open spec fn view(&self) -> AlbumInfoView {
        AlbumInfoView {
            artist: self.artist@,
            album: self.album@,
            release_date: self.release_date@,
            tags: text_of(self.tags),
            album_art_url: text_of(self.album_art_url),
        }
    }
}

impl Clone for AlbumInfo {
    fn clone(&self) -> (copy: Self)
        ensures
            copy@ == self@,
    {
        AlbumInfo {
            artist: self.artist.clone(),
            album: self.album.clone(),
            release_date: self.release_date.clone(),
            tags: clone_text(&self.tags),
            album_art_url: clone_text(&self.album_art_url),
        }
    }
}

impl AlbumView {
    /// The data of the album without its tracks.
    pub open spec fn info(self) -> AlbumInfoView {
        AlbumInfoView {
            artist: self.artist,
            album: self.album,
            release_date: self.release_date,
            tags: self.tags,
            album_art_url: self.album_art_url,
        }
    }
}

impl Album {
    /// The data of the album without its tracks.
    pub fn info(&self) -> (info: AlbumInfo)
        ensures
            info@ == self@.info(),
    {
        AlbumInfo {
            artist: self.artist.clone(),
            album: self.album.clone(),
            release_date: self.release_date.clone(),
            tags: clone_text(&self.tags),
            album_art_url: clone_text(&self.album_art_url),
        }
    }
}

/// Merging never replaces a populated field: a text that is not empty, a track
/// list that is not empty and an optional value that is present all survive,
/// whatever the other album holds.
pub proof fn lemma_update_keeps_populated(album: AlbumView, other: AlbumView)
    ensures
        album.artist.len() > 0 ==> album.merged(other).artist == album.artist,
        album.album.len() > 0 ==> album.merged(other).album == album.album,
        album.release_date.len() > 0 ==> album.merged(other).release_date == album.release_date,
        album.tracks.len() > 0 ==> album.merged(other).tracks == album.tracks,
        album.tags is Some ==> album.merged(other).tags == album.tags,
        album.album_art_url is Some ==> album.merged(other).album_art_url == album.album_art_url,
        album.artist_art_url is Some ==> album.merged(other).artist_art_url
            == album.artist_art_url,
{
}

/// Merging fills exactly the fields that were empty or absent, each with the
/// other album's value.
pub proof fn lemma_update_fills_missing(album: AlbumView, other: AlbumView)
    ensures
        album.artist.len() == 0 ==> album.merged(other).artist == other.artist,
        album.album.len() == 0 ==> album.merged(other).album == other.album,
        album.release_date.len() == 0 ==> album.merged(other).release_date == other.release_date,
        album.tracks.len() == 0 ==> album.merged(other).tracks == other.tracks,
        album.tags is None ==> album.merged(other).tags == other.tags,
        album.album_art_url is None ==> album.merged(other).album_art_url == other.album_art_url,
        album.artist_art_url is None ==> album.merged(other).artist_art_url
            == other.artist_art_url,
{
}

/// Merging an album that lacks nothing changes nothing.
pub proof fn lemma_update_of_complete_album(album: AlbumView, other: AlbumView)
    requires
        album.artist.len() > 0,
        album.album.len() > 0,
        album.release_date.len() > 0,
        album.tracks.len() > 0,
        album.tags is Some,
        album.album_art_url is Some,
        album.artist_art_url is Some,
    ensures
        album.merged(other) == album,
{
}

} // verus!
