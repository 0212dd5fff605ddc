//! File names and paths of the downloaded tracks, release dates and tags.

use vstd::prelude::*;
use crate::error::{Error, ErrorKind, ErrorView};
use crate::models::{
    albums_view, clone_text, Album, AlbumInfo, AlbumInfoView, AlbumView, Track, TrackView,
};
use crate::text::{decimal, decimal_text, has_prefix, starts_with, text_of, views_of};

verus! {

/// What `strfmt::strfmt` makes of a format string and the variables it may
/// name, each a pair of key and value: the text with every `{key}` replaced
/// by its value, laid out as the field asks, or the words of the error where
/// the format is malformed or names a key that is not among the variables.
pub uninterp spec fn template_filled(
    format: Seq<char>,
    vars: Seq<(Seq<char>, Seq<char>)>,
) -> Result<Seq<char>, Seq<char>>;

/// The views of a sequence of pairs of strings, in order.
pub open spec fn pairs_of(pairs: Seq<(String, String)>) -> Seq<(Seq<char>, Seq<char>)> {
    pairs.map_values(|pair: (String, String)| (pair.0@, pair.1@))
}

/// The view of a text or of the words of an error in its place.
pub open spec fn filled_view(filled: Result<String, String>) -> Result<Seq<char>, Seq<char>> {
    match filled {
        Ok(text) => Ok(text@),
        Err(words) => Err(words@),
    }
}

/// The view of a text or of the error in its place.
pub open spec fn text_or_error(outcome: Result<String, Error>) -> Result<Seq<char>, ErrorView> {
    match outcome {
        Ok(text) => Ok(text@),
        Err(error) => Err(error@),
    }
}

/// The variables of a file-name template: the keys `num`, `track`, `album`
/// and `artist` with their values.
pub open spec fn container_of(
    num: Seq<char>,
    track: Seq<char>,
    album: Seq<char>,
    artist: Seq<char>,
) -> Seq<(Seq<char>, Seq<char>)> {
    seq![("num"@, num), ("track"@, track), ("album"@, album), ("artist"@, artist)]
}

/// The variables that a track and its release give to a template.
pub open spec fn template_vars(track: TrackView, album: AlbumInfoView) -> Seq<
    (Seq<char>, Seq<char>),
> {
    container_of(decimal(track.num), track.name, album.album, album.artist)
}

/// The name of a track's file where no template is given: its number, a
/// hyphen between two spaces, its name.
pub open spec fn default_name(track: TrackView) -> Seq<char> {
    decimal(track.num) + " - "@ + track.name
}

/// A general error with these words.
pub open spec fn template_error(words: Seq<char>) -> ErrorView {
    ErrorView { kind: ErrorKind::General, detail: words }
}

/// The name of a track's file, without its extension: the default name for
/// an empty template, else the template filled in.
pub open spec fn file_name(track: TrackView, album: AlbumInfoView, format: Seq<char>) -> Result<
    Seq<char>,
    ErrorView,
> {
    if format.len() == 0 {
        Ok(default_name(track))
    } else {
        match template_filled(format, template_vars(track, album)) {
            Ok(name) => Ok(name),
            Err(words) => Err(template_error(words)),
        }
    }
}

/// The entry `name` of the directory `root`. An empty root is the current
/// directory; a separator is put after a root that does not end in one.
pub open spec fn joined_path(root: Seq<char>, name: Seq<char>) -> Seq<char> {
    if root.len() == 0 {
        name
    } else if root.last() == '/' {
        root + name
    } else {
        root + "/"@ + name
    }
}

/// The file `name` with the extension `.mp3` in the directory `root`.
pub open spec fn path_in(root: Seq<char>, name: Seq<char>) -> Seq<char> {
    joined_path(root, name) + ".mp3"@
}

/// The directory of a release: the artist's directory under the root, or in
/// the current directory where no root is given, and the album's under that.
pub open spec fn directory_of(
    root: Option<Seq<char>>,
    artist: Seq<char>,
    album: Seq<char>,
) -> Seq<char> {
    joined_path(
        match root {
            Some(path) => joined_path(path, artist),
            None => artist,
        },
        album,
    )
}

/// Where a track is saved.
pub open spec fn path_of(
    track: TrackView,
    album: AlbumInfoView,
    root: Seq<char>,
    format: Seq<char>,
) -> Result<Seq<char>, ErrorView> {
    match file_name(track, album, format) {
        Ok(name) => Ok(path_in(root, name)),
        Err(error) => Err(error),
    }
}

/// Where a track is saved, unless a file is there already.
pub open spec fn free_path_of(
    track: TrackView,
    album: AlbumInfoView,
    root: Seq<char>,
    format: Seq<char>,
    exists: bool,
) -> Result<Seq<char>, ErrorView> {
    match path_of(track, album, root, format) {
        Ok(path) => if exists {
            Err(ErrorView { kind: ErrorKind::FileExist, detail: path })
        } else {
            Ok(path)
        },
        Err(error) => Err(error),
    }
}

/// Calls `strfmt::strfmt` with the variables as a `HashMap` and turns its
/// error into words. Trusted: the answer is the one named by
/// [`template_filled`].
#[verifier::external_body]
pub(crate) fn fill_template(format: &str, vars: &Vec<(String, String)>) -> (filled: Result<
    String,
    String,
>)
    ensures
        filled_view(filled) == template_filled(format@, pairs_of(vars@)),
{
    let map: std::collections::HashMap<String, String> = vars.iter().cloned().collect();
    match strfmt::strfmt(format, &map) {
        Ok(text) => Ok(text),
        Err(error) => Err(error.to_string()),
    }
}

/// The variables of a file-name template.
#[must_use]
pub fn format_container(num: &str, track: &str, album: &str, artist: &str) -> (vars: Vec<
    (String, String),
>)
    ensures
        pairs_of(vars@) == container_of(num@, track@, album@, artist@),
{
    let mut vars: Vec<(String, String)> = Vec::new();
    vars.push(("num".to_string(), num.to_string()));
    vars.push(("track".to_string(), track.to_string()));
    vars.push(("album".to_string(), album.to_string()));
    vars.push(("artist".to_string(), artist.to_string()));
    assert(pairs_of(vars@) =~= container_of(num@, track@, album@, artist@));
    vars
}

/// Turns what the template engine answered into a file name or an error.
pub fn template_outcome(filled: Result<String, String>) -> (name: Result<String, Error>)
    ensures
        text_or_error(name) == match filled_view(filled) {
            Ok(text) => Ok::<Seq<char>, ErrorView>(text),
            Err(words) => Err(template_error(words)),
        },
{
    match filled {
        Ok(text) => Ok(text),
        Err(words) => Err(Error::General(words)),
    }
}

/// Fills a file-name template with the number and name of a track and the
/// title and artist of its release. A template that is malformed or names
/// another key is refused with a `General` error.
pub fn parse_track_template(format: &str, track: &Track, album: &AlbumInfo) -> (name: Result<
    String,
    Error,
>)
    ensures
        text_or_error(name) == match template_filled(format@, template_vars(track@, album@)) {
            Ok(text) => Ok::<Seq<char>, ErrorView>(text),
            Err(words) => Err(template_error(words)),
        },
{
    let num = decimal_text(track.num);
    let vars = format_container(
        num.as_str(),
        track.name.as_str(),
        album.album.as_str(),
        album.artist.as_str(),
    );
    template_outcome(fill_template(format, &vars))
}

/// The name of a track's file, without its extension.
pub fn track_file_name(track: &Track, album: &AlbumInfo, track_format: &str) -> (name: Result<
    String,
    Error,
>)
    ensures
        text_or_error(name) == file_name(track@, album@, track_format@),
{
    if track_format.is_empty() {
        let mut name = decimal_text(track.num);
        name.append(" - ");
        name.append(track.name.as_str());
        Ok(name)
    } else {
        parse_track_template(track_format, track, album)
    }
}

/// The path of an entry of a directory.
pub fn join_path(root: &str, name: &str) -> (path: String)
    ensures
        path@ == joined_path(root@, name@),
{
    let mut path = root.to_string();
    let length: usize = root.unicode_len();
    if length > 0 && root.get_char(length - 1) != '/' {
        path.append("/");
    }
    path.append(name);
    assert(path@ =~= joined_path(root@, name@)) by {
        if length == 0 {
            assert(root@ + name@ =~= name@);
        }
    }
    path
}

/// Puts a file name into a directory and gives it the extension `.mp3`.
pub fn path_for(root: &str, name: &str) -> (path: String)
    ensures
        path@ == path_in(root@, name@),
{
    let mut path = join_path(root, name);
    path.append(".mp3");
    path
}

/// The directory that receives the tracks of a release: `artist/album` under
/// the root, or in the current directory where no root is given. Making the
/// directory is left to the caller.
pub fn prepare_directory(path: Option<&str>, album: &AlbumInfo) -> (directory: String)
    ensures
        directory@ == directory_of(
            match path {
                Some(root) => Some(root@),
                None => None,
            },
            album@.artist,
            album@.album,
        ),
{
    let artist = match path {
        Some(root) => join_path(root, album.artist.as_str()),
        None => album.artist.clone(),
    };
    join_path(artist.as_str(), album.album.as_str())
}

/// Checks a file-name template: fills it with empty values. The answer is
/// the filled text, or the words of what is wrong with the template.
pub fn validate_format(format: &str) -> (checked: Result<String, String>)
    ensures
        filled_view(checked) == template_filled(
            format@,
            container_of(Seq::empty(), Seq::empty(), Seq::empty(), Seq::empty()),
        ),
{
    let vars = format_container("", "", "", "");
    proof {
        reveal_strlit("");
        assert(""@ =~= Seq::<char>::empty());
    }
    fill_template(format, &vars)
}

/// Where a track is saved: in `root`, under the default name or the name that
/// the template gives, with the extension `.mp3`.
pub fn make_path(track: &Track, album: &AlbumInfo, root: &str, track_format: &str) -> (path:
    Result<String, Error>)
    ensures
        text_or_error(path) == path_of(track@, album@, root@, track_format@),
{
    match track_file_name(track, album, track_format) {
        Ok(name) => Ok(path_for(root, name.as_str())),
        Err(error) => Err(error),
    }
}

/// Where a track is saved, unless a file is there already: `exists` says
/// whether one is at the path that [`make_path`] gives. An existing file is
/// never overwritten: it is reported as `FileExist` with its path.
pub fn track_path(
    track: &Track,
    album: &AlbumInfo,
    root: &str,
    track_format: &str,
    exists: bool,
) -> (path: Result<String, Error>)
    ensures
        text_or_error(path) == free_path_of(track@, album@, root@, track_format@, exists),
{
    match make_path(track, album, root, track_format) {
        Ok(file) => {
            if exists {
                Err(Error::FileExist(file))
            } else {
                Ok(file)
            }
        },
        Err(error) => Err(error),
    }
}

/// A point in time as a tag holds it: a year, and as much of the rest as is
/// known.
#[derive(Clone, Copy, Debug, PartialEq, Eq)]
pub struct Timestamp {
    pub year: i32,
    pub month: Option<u8>,
    pub day: Option<u8>,
    pub hour: Option<u8>,
    pub minute: Option<u8>,
    pub second: Option<u8>,
}

/// A calendar date and a time of day, as a parser read them.
#[derive(Clone, Copy, Debug, PartialEq, Eq, Structural)]
pub struct DateTimeParts {
    pub year: i32,
    pub month: u8,
    pub day: u8,
    pub hour: u8,
    pub minute: u8,
    pub second: u8,
}

/// A calendar date, as a parser read it.
#[derive(Clone, Copy, Debug, PartialEq, Eq, Structural)]
pub struct DateParts {
    pub year: i32,
    pub month: u8,
    pub day: u8,
}

impl DateTimeParts {
    /// Whether the fields are those of a day of the calendar and a time of
    /// the clock: a month from 1 to 12, a day from 1 to 31, an hour below 24,
    /// a minute and a second below 60.
    pub open spec fn on_calendar(self) -> bool {
        &&& 1 <= self.month <= 12
        &&& 1 <= self.day <= 31
        &&& self.hour <= 23
        &&& self.minute <= 59
        &&& self.second <= 59
    }
}

impl DateParts {
    /// Whether the fields are those of a day of the calendar: a month from 1
    /// to 12 and a day from 1 to 31.
    pub open spec fn on_calendar(self) -> bool {
        &&& 1 <= self.month <= 12
        &&& 1 <= self.day <= 31
    }
}

impl Timestamp {
    /// Whether every field that is known lies on the calendar and the clock.
    pub open spec fn on_calendar(self) -> bool {
        &&& self.month matches Some(month) ==> 1 <= month <= 12
        &&& self.day matches Some(day) ==> 1 <= day <= 31
        &&& self.hour matches Some(hour) ==> hour <= 23
        &&& self.minute matches Some(minute) ==> minute <= 59
        &&& self.second matches Some(second) ==> second <= 59
    }
}

/// What `chrono::NaiveDateTime::parse_from_str` reads from `text` under the
/// format `format`: the fields of the date and time, or `None` where the text
/// does not fit the format or names no real date and time.
pub uninterp spec fn chrono_date_time(text: Seq<char>, format: Seq<char>) -> Option<
    DateTimeParts,
>;

/// What `chrono::NaiveDate::parse_from_str` reads from `text` under the format
/// `format`: the fields of the date, or `None` where the text does not fit
/// the format or names no real date.
pub uninterp spec fn chrono_date(text: Seq<char>, format: Seq<char>) -> Option<DateParts>;

/// The timestamp of a date and time: every field is known.
pub open spec fn full_timestamp(parts: DateTimeParts) -> Timestamp {
    Timestamp {
        year: parts.year,
        month: Some(parts.month),
        day: Some(parts.day),
        hour: Some(parts.hour),
        minute: Some(parts.minute),
        second: Some(parts.second),
    }
}

/// The timestamp of a date: it has no time of day.
pub open spec fn date_timestamp(parts: DateParts) -> Timestamp {
    Timestamp {
        year: parts.year,
        month: Some(parts.month),
        day: Some(parts.day),
        hour: None,
        minute: None,
        second: None,
    }
}

/// The timestamp of a release date, given what the two parsers read from it.
/// A date and time wins. A date counts only where the text begins with
/// `released `. Anything else has no timestamp.
pub open spec fn timestamp_from(
    text: Seq<char>,
    moment: Option<DateTimeParts>,
    date: Option<DateParts>,
) -> Option<Timestamp> {
    match moment {
        Some(parts) => Some(full_timestamp(parts)),
        None => if has_prefix(text, "released "@) {
            match date {
                Some(parts) => Some(date_timestamp(parts)),
                None => None,
            }
        } else {
            None
        },
    }
}

/// What the text reads as under the first accepted form, such as
/// `28 Sep 2014 04:19:31 GMT`.
pub open spec fn as_date_time(text: Seq<char>) -> Option<DateTimeParts> {
    chrono_date_time(text, "%d %b %Y %T %Z"@)
}

/// What the text reads as under the second accepted form, such as
/// `released September 28, 2014`.
pub open spec fn as_prose_date(text: Seq<char>) -> Option<DateParts> {
    chrono_date(text, "released %B %d, %Y"@)
}

/// The timestamp of a release date.
pub open spec fn release_date_of(text: Seq<char>) -> Option<Timestamp> {
    timestamp_from(text, as_date_time(text), as_prose_date(text))
}

/// Calls `chrono::NaiveDateTime::parse_from_str` and takes the fields of what
/// it read with `Datelike` and `Timelike`. Trusted: the answer is the one
/// named by [`chrono_date_time`], and its fields lie in the ranges that the
/// two traits document: month 1 to 12, day 1 to 31, hour 0 to 23, minute and
/// second 0 to 59.
#[verifier::external_body]
pub(crate) fn parse_date_time(text: &str, format: &str) -> (parts: Option<DateTimeParts>)
    ensures
        parts == chrono_date_time(text@, format@),
        parts matches Some(read) ==> read.on_calendar(),
{
    match chrono::NaiveDateTime::parse_from_str(text, format) {
        Ok(moment) => Some(
            DateTimeParts {
                year: chrono::Datelike::year(&moment),
                month: chrono::Datelike::month(&moment) as u8,
                day: chrono::Datelike::day(&moment) as u8,
                hour: chrono::Timelike::hour(&moment) as u8,
                minute: chrono::Timelike::minute(&moment) as u8,
                second: chrono::Timelike::second(&moment) as u8,
            },
        ),
        Err(_) => None,
    }
}

/// Calls `chrono::NaiveDate::parse_from_str` and takes the fields of what it
/// read with `Datelike`. Trusted: the answer is the one named by
/// [`chrono_date`], and its fields lie in the ranges that the trait
/// documents: month 1 to 12, day 1 to 31.
#[verifier::external_body]
pub(crate) fn parse_date(text: &str, format: &str) -> (parts: Option<DateParts>)
    ensures
        parts == chrono_date(text@, format@),
        parts matches Some(read) ==> read.on_calendar(),
{
    match chrono::NaiveDate::parse_from_str(text, format) {
        Ok(date) => Some(
            DateParts {
                year: chrono::Datelike::year(&date),
                month: chrono::Datelike::month(&date) as u8,
                day: chrono::Datelike::day(&date) as u8,
            },
        ),
        Err(_) => None,
    }
}

/// The timestamp of a release date, given what the two parsers read from it.
pub fn timestamp_from_parts(
    date_string: &str,
    moment: Option<DateTimeParts>,
    date: Option<DateParts>,
) -> (stamp: Option<Timestamp>)
    ensures
        stamp == timestamp_from(date_string@, moment, date),
        (moment matches Some(read) ==> read.on_calendar()) && (date matches Some(read)
            ==> read.on_calendar()) ==> (stamp matches Some(found) ==> found.on_calendar()),
{
    match moment {
        Some(parts) => Some(
            Timestamp {
                year: parts.year,
                month: Some(parts.month),
                day: Some(parts.day),
                hour: Some(parts.hour),
                minute: Some(parts.minute),
                second: Some(parts.second),
            },
        ),
        None => {
            if !starts_with(date_string, "released ") {
                return None;
            }
            match date {
                Some(parts) => Some(
                    Timestamp {
                        year: parts.year,
                        month: Some(parts.month),
                        day: Some(parts.day),
                        hour: None,
                        minute: None,
                        second: None,
                    },
                ),
                None => None,
            }
        },
    }
}

/// Reads a release date in one of its two accepted forms: a date and time
/// such as `28 Sep 2014 04:19:31 GMT`, or the word `released` before a date
/// such as `September 28, 2014`. Any other text has no timestamp. The fields
/// of a timestamp lie on the calendar and the clock.
#[must_use]
pub fn timestamp(date_string: &str) -> (stamp: Option<Timestamp>)
    ensures
        stamp == release_date_of(date_string@),
        stamp matches Some(found) ==> found.on_calendar(),
{
    let moment = parse_date_time(date_string, "%d %b %Y %T %Z");
    if moment.is_some() || !starts_with(date_string, "released ") {
        timestamp_from_parts(date_string, moment, None)
    } else {
        timestamp_from_parts(date_string, moment, parse_date(date_string, "released %B %d, %Y"))
    }
}

/// A text in the first accepted form has a timestamp with the year, month,
/// day, hour, minute and second that were read from it.
pub proof fn lemma_date_time_is_kept(text: Seq<char>, parts: DateTimeParts)
    requires
        as_date_time(text) == Some(parts),
    ensures
        release_date_of(text) == Some(
            Timestamp {
                year: parts.year,
                month: Some(parts.month),
                day: Some(parts.day),
                hour: Some(parts.hour),
                minute: Some(parts.minute),
                second: Some(parts.second),
            },
        ),
{
}

/// A text in the second accepted form, and not in the first, has a timestamp
/// with the year, month and day that were read from it and no time of day.
pub proof fn lemma_prose_date_has_no_time(text: Seq<char>, parts: DateParts)
    requires
        has_prefix(text, "released "@),
        as_prose_date(text) == Some(parts),
        as_date_time(text) is None,
    ensures
        release_date_of(text) == Some(
            Timestamp {
                year: parts.year,
                month: Some(parts.month),
                day: Some(parts.day),
                hour: None,
                minute: None,
                second: None,
            },
        ),
{
}

/// A text in neither accepted form has no timestamp.
pub proof fn lemma_other_text_has_no_timestamp(text: Seq<char>)
    requires
        as_date_time(text) is None,
        !has_prefix(text, "released "@) || as_prose_date(text) is None,
    ensures
        release_date_of(text) is None,
{
}

/// The lyrics frame of a tag.
#[derive(Debug, PartialEq, Eq)]
pub struct Lyrics {
    /// The language of the text, as a three-letter code.
    pub lang: String,
    pub description: String,
    pub text: String,
}

/// The picture frame of a tag: the front cover.
#[derive(Debug, PartialEq, Eq)]
pub struct Picture {
    pub mime_type: String,
    pub description: String,
    pub data: Vec<u8>,
}

/// What is embedded in the file of a track.
#[derive(Debug, PartialEq, Eq)]
pub struct TagFields {
    pub title: String,
    pub track: u32,
    pub album: String,
    pub artist: String,
    pub album_artist: String,
    pub genre: Option<String>,
    pub lyrics: Option<Lyrics>,
    pub cover: Option<Picture>,
    pub date_recorded: Option<Timestamp>,
}

/// What a [`Lyrics`] holds, as mathematical values.
pub struct LyricsView {
    pub lang: Seq<char>,
    pub description: Seq<char>,
    pub text: Seq<char>,
}

/// What a [`Picture`] holds, as mathematical values.
pub struct PictureView {
    pub mime_type: Seq<char>,
    pub description: Seq<char>,
    pub data: Seq<u8>,
}

/// What a [`TagFields`] holds, as mathematical values.
pub struct TagFieldsView {
    pub title: Seq<char>,
    pub track: u32,
    pub album: Seq<char>,
    pub artist: Seq<char>,
    pub album_artist: Seq<char>,
    pub genre: Option<Seq<char>>,
    pub lyrics: Option<LyricsView>,
    pub cover: Option<PictureView>,
    pub date_recorded: Option<Timestamp>,
}

impl View for Lyrics {
    type V = LyricsView;

    open spec fn view(&self) -> LyricsView {
        LyricsView { lang: self.lang@, description: self.description@, text: self.text@ }
    }
}

impl View for Picture {
    type V = PictureView;

    open spec fn view(&self) -> PictureView {
        PictureView {
            mime_type: self.mime_type@,
            description: self.description@,
            data: self.data@,
        }
    }
}

impl View for TagFields {
    type V = TagFieldsView;

    open spec fn view(&self) -> TagFieldsView {
        TagFieldsView {
            title: self.title@,
            track: self.track,
            album: self.album@,
            artist: self.artist@,
            album_artist: self.album_artist@,
            genre: text_of(self.genre),
            lyrics: match self.lyrics {
                Some(lyrics) => Some(lyrics@),
                None => None,
            },
            cover: match self.cover {
                Some(picture) => Some(picture@),
                None => None,
            },
            date_recorded: self.date_recorded,
        }
    }
}

/// The bytes of an optional buffer.
pub open spec fn bytes_of(buffer: Option<Vec<u8>>) -> Option<Seq<u8>> {
    match buffer {
        Some(bytes) => Some(bytes@),
        None => None,
    }
}

/// The tags of a track: its title and number, the title and the artist of
/// its release, the artist again as the album's artist, the release's tag
/// line as genre where it has one, the lyrics in English where the track has
/// any, the cover as a JPEG front cover where there is one, and the date of
/// the release where it is known.
pub open spec fn tags_of(
    album_art: Option<Seq<u8>>,
    release_date: Option<Timestamp>,
    track: TrackView,
    album: AlbumInfoView,
) -> TagFieldsView {
    TagFieldsView {
        title: track.name,
        track: track.num as u32,
        album: album.album,
        artist: album.artist,
        album_artist: album.artist,
        genre: album.tags,
        lyrics: match track.lyrics {
            Some(text) => Some(LyricsView { lang: "eng"@, description: Seq::empty(), text }),
            None => None,
        },
        cover: match album_art {
            Some(data) => Some(
                PictureView { mime_type: "image/jpeg"@, description: Seq::empty(), data },
            ),
            None => None,
        },
        date_recorded: release_date,
    }
}

/// Puts together the tags of a track. The track number is the track's `num`
/// as an unsigned number of 32 bits.
pub fn tag_mp3(
    album_art: Option<Vec<u8>>,
    release_date: Option<Timestamp>,
    track: &Track,
    album: &AlbumInfo,
) -> (tags: TagFields)
    ensures
        tags@ == tags_of(bytes_of(album_art), release_date, track@, album@),
{
    let lyrics = match &track.lyrics {
        Some(text) => Some(
            Lyrics { lang: "eng".to_string(), description: String::new(), text: text.clone() },
        ),
        None => None,
    };
    let cover = match album_art {
        Some(data) => Some(
            Picture { mime_type: "image/jpeg".to_string(), description: String::new(), data },
        ),
        None => None,
    };
    TagFields {
        title: track.name.clone(),
        track: #[verifier::truncate] (track.num as u32),
        album: album.album.clone(),
        artist: album.artist.clone(),
        album_artist: album.artist.clone(),
        genre: clone_text(&album.tags),
        lyrics,
        cover,
        date_recorded: release_date,
    }
}

/// The line of an album in the tree of a catalog: a branch, or a corner for
/// the last album, and the title.
pub open spec fn album_line(title: Seq<char>, last: bool) -> Seq<char> {
    "  "@ + (if last {
        "└──"@
    } else {
        "├──"@
    }) + " "@ + title
}

/// The line of a track in the tree of a catalog: the trunk, unless the album
/// is the last, a branch, or a corner for the last track, and the name.
pub open spec fn track_line(name: Seq<char>, last_album: bool, last_track: bool) -> Seq<char> {
    "  "@ + (if last_album {
        " "@
    } else {
        "│"@
    }) + "   "@ + (if last_track {
        "└──"@
    } else {
        "├──"@
    }) + " "@ + name
}

/// The lines of the tracks of an album, in order.
pub open spec fn track_lines(tracks: Seq<TrackView>, last_album: bool) -> Seq<Seq<char>> {
    Seq::new(
        tracks.len(),
        |i: int| track_line(tracks[i].name, last_album, i == tracks.len() - 1),
    )
}

/// The lines of the first `count` albums of a catalog, each followed by the
/// lines of its tracks.
pub open spec fn album_lines(albums: Seq<AlbumView>, count: int) -> Seq<Seq<char>>
    decreases count,
{
    if count <= 0 {
        Seq::empty()
    } else {
        album_lines(albums, count - 1) + seq![
            album_line(albums[count - 1].album, count == albums.len()),
        ] + track_lines(albums[count - 1].tracks, count == albums.len())
    }
}

/// The tree of a catalog, line by line: the artist of the first album, then
/// every album with its tracks. An empty catalog has one line that says so.
pub open spec fn tree_of(albums: Seq<AlbumView>) -> Seq<Seq<char>> {
    if albums.len() == 0 {
        seq!["Noting to print"@]
    } else {
        seq![albums[0].artist] + album_lines(albums, albums.len() as int)
    }
}

/// The lines that show a catalog as a tree.
pub fn print_as_tree(albums: &Vec<Album>) -> (lines: Vec<String>)
    ensures
        views_of(lines@) == tree_of(albums_view(albums@)),
{
    let mut lines: Vec<String> = Vec::new();
    let ghost all = albums_view(albums@);
    if albums.len() == 0 {
        lines.push("Noting to print".to_string());
        assert(views_of(lines@) =~= tree_of(all));
        return lines;
    }
    lines.push(albums[0].artist.clone());
    assert(views_of(lines@) =~= seq![all[0].artist] + album_lines(all, 0));
    let mut a: usize = 0;
    while a < albums.len()
        invariant
            a <= albums.len(),
            albums.len() > 0,
            all == albums_view(albums@),
            views_of(lines@) == seq![all[0].artist] + album_lines(all, a as int),
        decreases albums.len() - a,
    {
        let album = &albums[a];
        let last_album: bool = a + 1 == albums.len();
        let mut line = "  ".to_string();
        line.append(if last_album { "└──" } else { "├──" });
        line.append(" ");
        line.append(album.album.as_str());
        let ghost before = views_of(lines@);
        lines.push(line);
        assert(views_of(lines@) =~= before.push(album_line(all[a as int].album, last_album)));
        let ghost wanted = track_lines(all[a as int].tracks, last_album);
        let ghost head = views_of(lines@);
        let mut t: usize = 0;
        assert(views_of(lines@) =~= head + wanted.take(0));
        while t < album.tracks.len()
            invariant
                t <= album.tracks.len(),
                a < albums.len(),
                album == &albums[a as int],
                all == albums_view(albums@),
                wanted == track_lines(all[a as int].tracks, last_album),
                views_of(lines@) == head + wanted.take(t as int),
            decreases album.tracks.len() - t,
        {
            let last_track: bool = t + 1 == album.tracks.len();
            let mut line = "  ".to_string();
            line.append(if last_album { " " } else { "│" });
            line.append("   ");
            line.append(if last_track { "└──" } else { "├──" });
            line.append(" ");
            line.append(album.tracks[t].name.as_str());
            let ghost so_far = views_of(lines@);
            lines.push(line);
            assert(line@ == wanted[t as int]);
            assert(views_of(lines@) =~= so_far.push(line@));
            assert(wanted.take(t + 1) =~= wanted.take(t as int).push(wanted[t as int]));
            assert(views_of(lines@) =~= head + wanted.take(t + 1));
            t += 1;
        }
        assert(wanted.take(album.tracks.len() as int) =~= wanted);
        assert(views_of(lines@) =~= seq![all[0].artist] + album_lines(all, a + 1));
        a += 1;
    }
    lines
}

/// The words by which the program makes itself known to a server: its name
/// and version, the system and machine it runs on, and the version of the
/// transfer library.
pub open spec fn agent_of(
    name: Seq<char>,
    version: Seq<char>,
    os: Seq<char>,
    arch: Seq<char>,
    curl: Seq<char>,
) -> Seq<char> {
    name + "/"@ + version + " ("@ + os + ", "@ + arch + ") curl/"@ + curl
}

/// The words by which the program makes itself known to a server.
#[must_use]
pub fn user_agent(name: &str, version: &str, os: &str, arch: &str, curl: &str) -> (agent: String)
    ensures
        agent@ == agent_of(name@, version@, os@, arch@, curl@),
{
    let mut agent = name.to_string();
    agent.append("/");
    agent.append(version);
    agent.append(" (");
    agent.append(os);
    agent.append(", ");
    agent.append(arch);
    agent.append(") curl/");
    agent.append(curl);
    agent
}

} // verus!
