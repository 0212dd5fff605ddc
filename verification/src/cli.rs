//! What the command line asks for, and what follows from it.

use vstd::prelude::*;
use crate::error::{Error, ErrorKind, ErrorView};
use crate::models::{Album, AlbumView};
use crate::multi_dl::{
    completed_with, fresh_slots, idle, lemma_completes_at_most_once,
    lemma_each_request_completes_once, requests_view, run_from, run_of, EventView,
    TransferRequest, TransferRequestView,
};
use crate::text::views_of;
use crate::utils::text_or_error;

verus! {

/// What a search looks for.
#[derive(Clone, Copy, Debug, PartialEq, Eq, Structural)]
pub enum SearchType {
    All,
    Artists,
    Labels,
    Albums,
    Tracks,
}

impl SearchType {
    /// The filter that the search service knows this type by.
    pub open spec fn filter(self) -> Seq<char> {
        match self {
            SearchType::All => ""@,
            SearchType::Artists => "b"@,
            SearchType::Labels => "b"@,
            SearchType::Albums => "a"@,
            SearchType::Tracks => "t"@,
        }
    }

    /// The filter that the search service knows this type by: nothing for
    /// everything, `b` for artists and labels alike, `a` for albums and `t`
    /// for tracks.
    pub fn as_search_filter(&self) -> (filter: &'static str)
        ensures
            filter@ == self.filter(),
    {
        match self {
            SearchType::All => "",
            SearchType::Artists => "b",
            SearchType::Labels => "b",
            SearchType::Albums => "a",
            SearchType::Tracks => "t",
        }
    }
}

/// The settings of one run of the program.
#[derive(Debug, PartialEq, Eq)]
pub struct Config {
    /// The artist's user name, or the address of a page.
    pub url: String,
    /// The directory under which downloads are saved.
    pub path: Option<String>,
    /// The template of a track's file name.
    pub track_format: Option<String>,
    /// The titles of the albums that are not to be downloaded.
    pub skip_albums: Option<Vec<String>>,
    /// List what there is instead of downloading it.
    pub list_available: bool,
    /// Search instead of downloading.
    pub search: bool,
    /// What to search for.
    pub search_type: SearchType,
    /// Show what would happen and do nothing.
    pub dry_run: bool,
}

/// Why an address could not be read.
#[derive(Debug, PartialEq, Eq)]
pub enum UrlError {
    /// The text is a relative address, and there is nothing it is relative to.
    RelativeWithoutBase,
    /// Anything else, in words.
    Other(String),
}

/// What a [`UrlError`] holds, as mathematical values.
pub enum UrlErrorView {
    RelativeWithoutBase,
    Other(Seq<char>),
}

impl View for UrlError {
    type V = UrlErrorView;

    open spec fn view(&self) -> UrlErrorView {
        match self {
            UrlError::RelativeWithoutBase => UrlErrorView::RelativeWithoutBase,
            UrlError::Other(words) => UrlErrorView::Other(words@),
        }
    }
}

/// What `url::Url::parse` makes of a text: the address in its normal form, or
/// the reason why the text is not an absolute address.
pub uninterp spec fn url_parsed(input: Seq<char>) -> Result<Seq<char>, UrlErrorView>;

/// The view of a parsed address or of the error in its place.
pub open spec fn parsed_view(parsed: Result<String, UrlError>) -> Result<
    Seq<char>,
    UrlErrorView,
> {
    match parsed {
        Ok(address) => Ok(address@),
        Err(error) => Err(error@),
    }
}

/// The address of the page to fetch, given what the parser made of the
/// input. An absolute address is taken in its normal form. A relative one is
/// taken for the user name of an artist and gives the address of that
/// artist's music page. Anything else is an error.
pub open spec fn resolved_url(input: Seq<char>, parsed: Result<Seq<char>, UrlErrorView>) -> Result<
    Seq<char>,
    ErrorView,
> {
    match parsed {
        Ok(address) => Ok(address),
        Err(UrlErrorView::RelativeWithoutBase) => Ok(
            "https://"@ + input + ".bandcamp.com/music"@,
        ),
        Err(UrlErrorView::Other(words)) => Err(
            ErrorView { kind: ErrorKind::General, detail: words },
        ),
    }
}

/// Whether the title is one of the list.
pub open spec fn listed(titles: Seq<Seq<char>>, title: Seq<char>) -> bool {
    exists|i: int| 0 <= i < titles.len() && #[trigger] titles[i] == title
}

/// Whether an album with this title is left out, given the titles to skip.
pub open spec fn skipped(skip: Option<Seq<Seq<char>>>, title: Seq<char>) -> bool {
    match skip {
        Some(titles) => listed(titles, title),
        None => false,
    }
}

/// The view of an optional list of titles.
pub open spec fn titles_view(skip: Option<Vec<String>>) -> Option<Seq<Seq<char>>> {
    match skip {
        Some(titles) => Some(views_of(titles@)),
        None => None,
    }
}

/// The requests for the tracks of an album, in the album's order, each into
/// the directory `root`.
pub open spec fn requests_of(album: AlbumView, root: Seq<char>) -> Seq<TransferRequestView> {
    Seq::new(
        album.tracks.len(),
        |i: int| TransferRequestView { track: album.tracks[i], album: album.info(), root },
    )
}

/// The requests whose destination is free, in order: `exists` says of each
/// request whether a file is at its destination, and a request beyond the
/// end of `exists` counts as free.
pub open spec fn missing_of(requests: Seq<TransferRequestView>, exists: Seq<bool>) -> Seq<
    TransferRequestView,
>
    decreases requests.len(),
{
    if requests.len() == 0 {
        Seq::empty()
    } else {
        let rest = missing_of(requests.drop_last(), exists);
        if requests.len() <= exists.len() && exists[requests.len() - 1] {
            rest
        } else {
            rest.push(requests.last())
        }
    }
}

/// The line that tells of a track that is skipped because its file is there.
pub open spec fn skip_notice(request: TransferRequestView) -> Seq<char> {
    "`"@ + request.track.name + "` already exist, skipping"@
}

/// The notices of the requests that are skipped, in order: one for each
/// request whose file is there already.
pub open spec fn notices_of(requests: Seq<TransferRequestView>, exists: Seq<bool>) -> Seq<
    Seq<char>,
>
    decreases requests.len(),
{
    if requests.len() == 0 {
        Seq::empty()
    } else {
        let rest = notices_of(requests.drop_last(), exists);
        if is_free(exists, requests.len() - 1) {
            rest
        } else {
            rest.push(skip_notice(requests.last()))
        }
    }
}

/// Whether the destination of the request at `index` is free: no file is
/// known to be there.
pub open spec fn is_free(exists: Seq<bool>, index: int) -> bool {
    !(0 <= index < exists.len() && exists[index])
}

/// The indexes below `count` of the requests whose destination is free, in
/// rising order.
pub open spec fn free_indexes(count: int, exists: Seq<bool>) -> Seq<int>
    decreases count,
{
    if count <= 0 {
        Seq::empty()
    } else if is_free(exists, count - 1) {
        free_indexes(count - 1, exists).push(count - 1)
    } else {
        free_indexes(count - 1, exists)
    }
}

/// `text` with every tilde replaced by `home`.
pub open spec fn tildes_replaced(text: Seq<char>, home: Seq<char>) -> Seq<char>
    decreases text.len(),
{
    if text.len() == 0 {
        Seq::empty()
    } else {
        tildes_replaced(text.drop_last(), home) + if text.last() == '~' {
            home
        } else {
            seq![text.last()]
        }
    }
}

/// A path as the user wrote it, with the home directory in place of its
/// tildes where it begins with one.
pub open spec fn tilde_expanded(path: Seq<char>, home: Seq<char>) -> Seq<char> {
    if path.len() > 0 && path[0] == '~' {
        tildes_replaced(path, home)
    } else {
        path
    }
}

/// Calls `url::Url::parse` and turns the address into a string, as `Url`'s
/// conversion does; of the errors only `RelativeUrlWithoutBase` is told
/// apart, the others are put into words. Trusted: the answer is the one
/// named by [`url_parsed`].
#[verifier::external_body]
pub(crate) fn parse_absolute(input: &str) -> (parsed: Result<String, UrlError>)
    ensures
        parsed_view(parsed) == url_parsed(input@),
{
    match url::Url::parse(input) {
        Ok(address) => Ok(address.into()),
        Err(url::ParseError::RelativeUrlWithoutBase) => Err(UrlError::RelativeWithoutBase),
        Err(other) => Err(UrlError::Other(other.to_string())),
    }
}

/// The address of the page to fetch, given what the parser made of the input.
pub fn resolve_url(input: &str, parsed: Result<String, UrlError>) -> (address: Result<
    String,
    Error,
>)
    ensures
        text_or_error(address) == resolved_url(input@, parsed_view(parsed)),
{
    match parsed {
        Ok(address) => Ok(address),
        Err(UrlError::RelativeWithoutBase) => {
            let mut address = "https://".to_string();
            address.append(input);
            address.append(".bandcamp.com/music");
            Ok(address)
        },
        Err(UrlError::Other(words)) => Err(Error::General(words)),
    }
}

/// The address of the page to fetch: the input where it is an address, the
/// music page of the artist where it is a user name.
pub fn parse_url(input: &str) -> (address: Result<String, Error>)
    ensures
        text_or_error(address) == resolved_url(input@, url_parsed(input@)),
{
    resolve_url(input, parse_absolute(input))
}

/// Expands a path that begins with a tilde: every tilde in it gives way to
/// the home directory. Any other path is left as it is.
pub fn expand_tilde(p: &str, home: &str) -> (path: String)
    ensures
        path@ == tilde_expanded(p@, home@),
{
    let length: usize = p.unicode_len();
    if length == 0 || p.get_char(0) != '~' {
        return p.to_string();
    }
    let mut path = String::new();
    let mut i: usize = 0;
    assert(p@.take(0) =~= Seq::<char>::empty());
    while i < length
        invariant
            i <= length,
            length == p@.len(),
            path@ == tildes_replaced(p@.take(i as int), home@),
        decreases length - i,
    {
        assert(p@.take(i + 1).drop_last() =~= p@.take(i as int));
        assert(p@.take(i + 1).last() == p@[i as int]);
        if p.get_char(i) == '~' {
            path.append(home);
        } else {
            let piece = p.substring_char(i, i + 1);
            assert(piece@ =~= seq![p@[i as int]]);
            path.append(piece);
        }
        i += 1;
    }
    assert(p@.take(length as int) =~= p@);
    path
}

impl Config {
    /// The template of a track's file name; empty where none was given.
    pub fn file_name_format(&self) -> (format: String)
        ensures
            format@ == match self.track_format {
                Some(given) => given@,
                None => Seq::<char>::empty(),
            },
    {
        match &self.track_format {
            Some(given) => given.clone(),
            None => String::new(),
        }
    }

    /// Whether the album is one of those that are not to be downloaded.
    pub fn skips(&self, album: &Album) -> (skip: bool)
        ensures
            skip == skipped(titles_view(self.skip_albums), album@.album),
    {
        match &self.skip_albums {
            Some(titles) => {
                let ghost all = views_of(titles@);
                let mut i: usize = 0;
                while i < titles.len()
                    invariant
                        i <= titles.len(),
                        all == views_of(titles@),
                        titles_view(self.skip_albums) == Some(all),
                        forall|k: int| 0 <= k < i ==> all[k] != album@.album,
                    decreases titles.len() - i,
                {
                    if titles[i] == album.album {
                        assert(all[i as int] == album@.album);
                        assert(listed(all, album@.album));
                        return true;
                    }
                    i += 1;
                }
                false
            },
            None => false,
        }
    }
}

/// The requests for the tracks of an album, each into the directory `root`.
pub fn requests_for(album: &Album, root: &str) -> (requests: Vec<TransferRequest>)
    ensures
        requests_view(requests@) == requests_of(album@, root@),
{
    let info = album.info();
    let mut requests: Vec<TransferRequest> = Vec::new();
    let mut i: usize = 0;
    while i < album.tracks.len()
        invariant
            i <= album.tracks.len(),
            info@ == album@.info(),
            requests.len() == i,
            forall|k: int|
                0 <= k < i ==> (#[trigger] requests[k])@ == (TransferRequestView {
                    track: album.tracks[k]@,
                    album: album@.info(),
                    root: root@,
                }),
        decreases album.tracks.len() - i,
    {
        requests.push(
            TransferRequest {
                track: album.tracks[i].clone(),
                album: info.clone(),
                root: root.to_string(),
            },
        );
        i += 1;
    }
    assert(requests_view(requests@) =~= requests_of(album@, root@));
    requests
}

/// Leaves out the requests whose file is there already: `exists` says of each
/// request, in order, whether a file is at its destination.
pub fn skip_existing(requests: Vec<TransferRequest>, exists: &Vec<bool>) -> (missing: Vec<
    TransferRequest,
>)
    ensures
        requests_view(missing@) == missing_of(requests_view(requests@), exists@),
        missing.len() <= requests.len(),
{
    let mut missing: Vec<TransferRequest> = Vec::new();
    let ghost all = requests_view(requests@);
    let mut i: usize = 0;
    while i < requests.len()
        invariant
            i <= requests.len(),
            all == requests_view(requests@),
            requests_view(missing@) == missing_of(all.take(i as int), exists@),
            missing.len() <= i,
        decreases requests.len() - i,
    {
        assert(all.take(i + 1).drop_last() =~= all.take(i as int));
        assert(all.take(i + 1).last() == requests[i as int]@);
        if !(i < exists.len() && exists[i]) {
            let ghost before = requests_view(missing@);
            let request = requests[i].clone();
            missing.push(request);
            assert(requests_view(missing@) =~= before.push(request@));
        }
        i += 1;
    }
    assert(all.take(requests.len() as int) =~= all);
    missing
}

/// Tells of each request that is skipped because its file is there already:
/// `exists` says of each request, in order, whether a file is at its
/// destination.
pub fn skip_notices(requests: &Vec<TransferRequest>, exists: &Vec<bool>) -> (notices: Vec<String>)
    ensures
        views_of(notices@) == notices_of(requests_view(requests@), exists@),
        notices.len() <= requests.len(),
{
    let mut notices: Vec<String> = Vec::new();
    let ghost all = requests_view(requests@);
    let mut i: usize = 0;
    while i < requests.len()
        invariant
            i <= requests.len(),
            all == requests_view(requests@),
            views_of(notices@) == notices_of(all.take(i as int), exists@),
            notices.len() <= i,
        decreases requests.len() - i,
    {
        assert(all.take(i + 1).drop_last() =~= all.take(i as int));
        assert(all.take(i + 1).last() == requests[i as int]@);
        if i < exists.len() && exists[i] {
            let mut notice = "`".to_string();
            notice.append(requests[i].track.name.as_str());
            notice.append("` already exist, skipping");
            let ghost before = views_of(notices@);
            notices.push(notice);
            assert(views_of(notices@) =~= before.push(notice@));
        }
        i += 1;
    }
    assert(all.take(requests.len() as int) =~= all);
    notices
}

/// Every request is either kept or told of as skipped, never both: the
/// requests that are kept and the notices of those that are skipped add up
/// to the requests.
pub proof fn lemma_every_request_is_kept_or_skipped(
    requests: Seq<TransferRequestView>,
    exists: Seq<bool>,
)
    ensures
        missing_of(requests, exists).len() + notices_of(requests, exists).len() == requests.len(),
    decreases requests.len(),
{
    if requests.len() > 0 {
        lemma_every_request_is_kept_or_skipped(requests.drop_last(), exists);
    }
}

/// The requests that are left after those with an existing file are taken
/// out are the requests at the free indexes, in their order: none of them has
/// a file at its destination, and none whose destination is free is missing.
pub proof fn lemma_missing_are_the_free(requests: Seq<TransferRequestView>, exists: Seq<bool>)
    ensures
        missing_of(requests, exists).len() == free_indexes(requests.len() as int, exists).len(),
        forall|k: int|
            0 <= k < missing_of(requests, exists).len() ==> {
                let index = #[trigger] free_indexes(requests.len() as int, exists)[k];
                &&& 0 <= index < requests.len()
                &&& is_free(exists, index)
                &&& missing_of(requests, exists)[k] == requests[index]
            },
        forall|index: int|
            0 <= index < requests.len() && is_free(exists, index) ==> exists|k: int|
                0 <= k < missing_of(requests, exists).len() && #[trigger] free_indexes(
                    requests.len() as int,
                    exists,
                )[k] == index,
    decreases requests.len(),
{
    if requests.len() > 0 {
        let shorter = requests.drop_last();
        let last = requests.len() - 1;
        lemma_missing_are_the_free(shorter, exists);
        let kept = missing_of(requests, exists);
        let origin = free_indexes(requests.len() as int, exists);
        let before = free_indexes(last as int, exists);
        assert forall|k: int| 0 <= k < kept.len() implies {
            let index = #[trigger] origin[k];
            &&& 0 <= index < requests.len()
            &&& is_free(exists, index)
            &&& kept[k] == requests[index]
        } by {
            if k < missing_of(shorter, exists).len() {
                assert(kept[k] == missing_of(shorter, exists)[k]);
                assert(origin[k] == before[k]);
                assert(shorter[before[k]] == requests[before[k]]);
            } else {
                assert(is_free(exists, last as int));
                assert(origin[k] == last);
                assert(kept[k] == requests[last as int]);
            }
        }
        assert forall|index: int| 0 <= index < requests.len() && is_free(exists, index) implies exists|
            k: int,
        |
            0 <= k < kept.len() && #[trigger] origin[k] == index by {
            if index == last {
                assert(origin[kept.len() - 1] == index);
            } else {
                let k = choose|k: int|
                    0 <= k < missing_of(shorter, exists).len() && #[trigger] before[k] == index;
                assert(origin[k] == index);
            }
        }
    }
}

/// A download of the requests whose file is missing touches no other
/// request. Every completion is that of a request whose destination was
/// free, and no request completes twice. Once the engine is idle, every
/// request whose destination was free has completed, once, and no request
/// with an existing file has.
pub proof fn lemma_only_missing_files_are_downloaded(
    requests: Seq<TransferRequestView>,
    exists: Seq<bool>,
    events: Seq<EventView>,
)
    ensures
        forall|i: int|
            0 <= i < run_of(missing_of(requests, exists), events).len() ==> {
                let done = #[trigger] run_of(missing_of(requests, exists), events)[i];
                let index = free_indexes(requests.len() as int, exists)[done.token as int];
                &&& 0 <= done.token < free_indexes(requests.len() as int, exists).len()
                &&& 0 <= index < requests.len()
                &&& is_free(exists, index)
                &&& done.request == requests[index]
            },
        forall|i: int, j: int|
            0 <= i < j < run_of(missing_of(requests, exists), events).len() ==> (#[trigger] run_of(
                missing_of(requests, exists),
                events,
            )[i]).token != (#[trigger] run_of(missing_of(requests, exists), events)[j]).token,
        idle(run_from(fresh_slots(missing_of(requests, exists)), events).0) ==> {
            &&& run_of(missing_of(requests, exists), events).len() == free_indexes(
                requests.len() as int,
                exists,
            ).len()
            &&& forall|token: int|
                0 <= token < free_indexes(requests.len() as int, exists).len()
                    ==> #[trigger] completed_with(
                    run_of(missing_of(requests, exists), events),
                    token,
                    requests[free_indexes(requests.len() as int, exists)[token]],
                )
        },
{
    let kept = missing_of(requests, exists);
    lemma_missing_are_the_free(requests, exists);
    lemma_completes_at_most_once(kept, events);
    let done = run_of(kept, events);
    assert forall|i: int| 0 <= i < done.len() implies {
        let one = #[trigger] done[i];
        let index = free_indexes(requests.len() as int, exists)[one.token as int];
        &&& 0 <= one.token < free_indexes(requests.len() as int, exists).len()
        &&& 0 <= index < requests.len()
        &&& is_free(exists, index)
        &&& one.request == requests[index]
    } by {
        assert(done[i].request == kept[done[i].token as int]);
    }
    if idle(run_from(fresh_slots(kept), events).0) {
        lemma_each_request_completes_once(kept, events);
        assert forall|token: int|
            0 <= token < free_indexes(requests.len() as int, exists).len()
                implies #[trigger] completed_with(
            done,
            token,
            requests[free_indexes(requests.len() as int, exists)[token]],
        ) by {
            assert(completed_with(done, token, kept[token]));
        }
    }
}

} // verus!
