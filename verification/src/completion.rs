//! The completion pipeline: what becomes of a transfer that has ended.
//!
//! The pipeline decides and the caller acts. Each step hands out one action:
//! a question to the file system, a file to write, a cover to fetch, tags to
//! embed, or the outcome to report. The caller answers with a reply and gets
//! the next action.

use vstd::prelude::*;
use crate::error::{Error, ErrorKind, ErrorView};
use crate::models::{AlbumInfo, AlbumInfoView};
use crate::multi_dl::{Completion, CompletionView, TransferRequest, TransferRequestView};
use crate::text::text_of;
use crate::utils::{
    bytes_of, make_path, path_of, release_date_of, tag_mp3, tags_of, timestamp, TagFields,
    TagFieldsView,
};

verus! {

/// How the work on a finished transfer ended.
#[derive(Debug, PartialEq)]
pub enum Outcome {
    /// The file was written and tagged; this is its path.
    Saved(String),
    /// Nothing was written, and nothing is wrong: the file was there already.
    Skipped(Error),
    /// The track was given up.
    Failed(Error),
}

/// What an [`Outcome`] holds, as mathematical values.
pub enum OutcomeView {
    Saved(Seq<char>),
    Skipped(ErrorView),
    Failed(ErrorView),
}

impl View for Outcome {
    type V = OutcomeView;

    open spec fn view(&self) -> OutcomeView {
        match self {
            Outcome::Saved(path) => OutcomeView::Saved(path@),
            Outcome::Skipped(error) => OutcomeView::Skipped(error@),
            Outcome::Failed(error) => OutcomeView::Failed(error@),
        }
    }
}

/// What the caller is asked to do next.
#[derive(Debug, PartialEq)]
pub enum Action {
    /// Say whether a file is at this path.
    CheckExists { path: String },
    /// Create the file and write these bytes to it.
    WriteFile { path: String, bytes: Vec<u8> },
    /// Fetch the cover art from this address.
    FetchCover { url: String },
    /// Embed these tags in the file.
    WriteTags { path: String, tags: TagFields },
    /// Report the outcome; the work on this transfer is over.
    Report(Outcome),
}

/// What an [`Action`] holds, as mathematical values.
pub enum ActionView {
    CheckExists { path: Seq<char> },
    WriteFile { path: Seq<char>, bytes: Seq<u8> },
    FetchCover { url: Seq<char> },
    WriteTags { path: Seq<char>, tags: TagFieldsView },
    Report(OutcomeView),
}

impl View for Action {
    type V = ActionView;

    open spec fn view(&self) -> ActionView {
        match self {
            Action::CheckExists { path } => ActionView::CheckExists { path: path@ },
            Action::WriteFile { path, bytes } => ActionView::WriteFile {
                path: path@,
                bytes: bytes@,
            },
            Action::FetchCover { url } => ActionView::FetchCover { url: url@ },
            Action::WriteTags { path, tags } => ActionView::WriteTags { path: path@, tags: tags@ },
            Action::Report(outcome) => ActionView::Report(outcome@),
        }
    }
}

/// What the caller answers.
#[derive(Debug, PartialEq, Eq)]
pub enum Reply {
    /// Whether a file is at the path.
    Exists(bool),
    /// The file was written, or the words of the error.
    Written(Result<(), String>),
    /// The bytes of the cover, or nothing where it could not be fetched.
    Cover(Option<Vec<u8>>),
    /// The tags were embedded, or the words of the error.
    Tagged(Result<(), String>),
}

/// What a [`Reply`] holds, as mathematical values.
pub enum ReplyView {
    Exists(bool),
    Written(Result<(), Seq<char>>),
    Cover(Option<Seq<u8>>),
    Tagged(Result<(), Seq<char>>),
}

/// The view of an answer without a value.
pub open spec fn done_or_words(result: Result<(), String>) -> Result<(), Seq<char>> {
    match result {
        Ok(_) => Ok(()),
        Err(words) => Err(words@),
    }
}

impl View for Reply {
    type V = ReplyView;

    open spec fn view(&self) -> ReplyView {
        match self {
            Reply::Exists(exists) => ReplyView::Exists(*exists),
            Reply::Written(result) => ReplyView::Written(done_or_words(*result)),
            Reply::Cover(art) => ReplyView::Cover(bytes_of(*art)),
            Reply::Tagged(result) => ReplyView::Tagged(done_or_words(*result)),
        }
    }
}

/// What the pipeline is waiting for.
#[derive(Clone, Copy, Debug, PartialEq, Eq, Structural)]
pub enum Stage {
    /// Whether the destination exists.
    CheckingPath,
    /// The file being written.
    Writing,
    /// The cover art.
    FetchingCover,
    /// The tags being embedded.
    Tagging,
    /// Nothing: the outcome has been handed out.
    Done,
}

/// The work on one finished transfer.
#[derive(Debug, PartialEq, Eq)]
pub struct Pipeline {
    pub request: TransferRequest,
    /// Where the file goes; empty where no path could be made.
    pub path: String,
    /// The payload, until it is handed out to be written.
    pub payload: Vec<u8>,
    pub stage: Stage,
}

/// What a [`Pipeline`] holds, as mathematical values.
pub struct PipelineView {
    pub request: TransferRequestView,
    pub path: Seq<char>,
    pub payload: Seq<u8>,
    pub stage: Stage,
}

impl View for Pipeline {
    type V = PipelineView;

    open spec fn view(&self) -> PipelineView {
        PipelineView {
            request: self.request@,
            path: self.path@,
            payload: self.payload@,
            stage: self.stage,
        }
    }
}

/// The error of a transfer that the transport gave up: its words, then the
/// address of the track between angle brackets.
pub open spec fn transport_failure(words: Seq<char>, url: Seq<char>) -> ErrorView {
    ErrorView { kind: ErrorKind::Http, detail: words + " - <"@ + url + ">"@ }
}

/// The address of the cover art of a release, where it has one that is not
/// empty.
pub open spec fn cover_url(album: AlbumInfoView) -> Option<Seq<char>> {
    match album.album_art_url {
        Some(url) => if url.len() > 0 {
            Some(url)
        } else {
            None
        },
        None => None,
    }
}

/// A pipeline that has ended without a path.
pub open spec fn ended(request: TransferRequestView) -> PipelineView {
    PipelineView { request, path: Seq::empty(), payload: Seq::empty(), stage: Stage::Done }
}

/// The pipeline of a completion and its first action. A transfer that failed
/// is reported with the address of the track and nothing is written. For one
/// that ended well the destination is made up and the caller is asked
/// whether a file is there.
pub open spec fn started(completion: CompletionView, format: Seq<char>) -> (
    PipelineView,
    ActionView,
) {
    let request = completion.request;
    match completion.result {
        Err(words) => (
            ended(request),
            ActionView::Report(
                OutcomeView::Failed(transport_failure(words, request.track.url)),
            ),
        ),
        Ok(bytes) => match path_of(request.track, request.album, request.root, format) {
            Ok(path) => (
                PipelineView { request, path, payload: bytes, stage: Stage::CheckingPath },
                ActionView::CheckExists { path },
            ),
            Err(error) => (ended(request), ActionView::Report(OutcomeView::Failed(error))),
        },
    }
}

/// The step that asks for the tags to be embedded, with the cover where one
/// was fetched and the release date where it can be read.
pub open spec fn tagging(pipeline: PipelineView, art: Option<Seq<u8>>) -> (
    PipelineView,
    ActionView,
) {
    (
        PipelineView { stage: Stage::Tagging, ..pipeline },
        ActionView::WriteTags {
            path: pipeline.path,
            tags: tags_of(
                art,
                release_date_of(pipeline.request.album.release_date),
                pipeline.request.track,
                pipeline.request.album,
            ),
        },
    )
}

/// The step that ends the pipeline with an outcome.
pub open spec fn reporting(pipeline: PipelineView, outcome: OutcomeView) -> (
    PipelineView,
    ActionView,
) {
    (PipelineView { stage: Stage::Done, ..pipeline }, ActionView::Report(outcome))
}

/// The error of a given kind with these words.
pub open spec fn failure(kind: ErrorKind, words: Seq<char>) -> OutcomeView {
    OutcomeView::Failed(ErrorView { kind, detail: words })
}

/// The pipeline after a reply, and its next action.
///
/// A destination that exists is skipped and never written. A file that could
/// not be written is an `IO` failure. After the file the cover is fetched
/// where the release names one; a cover that could not be fetched is left
/// out of the tags. Tags that could not be embedded are a `Tag` failure, and
/// the file stays. A reply that does not answer what was asked ends the work
/// with a `General` failure.
pub open spec fn advanced(pipeline: PipelineView, reply: ReplyView) -> (PipelineView, ActionView) {
    match (pipeline.stage, reply) {
        (Stage::CheckingPath, ReplyView::Exists(exists)) => if exists {
            reporting(
                pipeline,
                OutcomeView::Skipped(
                    ErrorView { kind: ErrorKind::FileExist, detail: pipeline.path },
                ),
            )
        } else {
            (
                PipelineView { stage: Stage::Writing, payload: Seq::empty(), ..pipeline },
                ActionView::WriteFile { path: pipeline.path, bytes: pipeline.payload },
            )
        },
        (Stage::Writing, ReplyView::Written(Ok(_))) => match cover_url(pipeline.request.album) {
            Some(url) => (
                PipelineView { stage: Stage::FetchingCover, ..pipeline },
                ActionView::FetchCover { url },
            ),
            None => tagging(pipeline, None),
        },
        (Stage::Writing, ReplyView::Written(Err(words))) => reporting(
            pipeline,
            failure(ErrorKind::IO, words),
        ),
        (Stage::FetchingCover, ReplyView::Cover(art)) => tagging(pipeline, art),
        (Stage::Tagging, ReplyView::Tagged(Ok(_))) => reporting(
            pipeline,
            OutcomeView::Saved(pipeline.path),
        ),
        (Stage::Tagging, ReplyView::Tagged(Err(words))) => reporting(
            pipeline,
            failure(ErrorKind::Tag, words),
        ),
        _ => reporting(pipeline, failure(ErrorKind::General, "reply out of order"@)),
    }
}

/// The address from which to fetch the cover art of a release, if any.
pub fn cover_art_url(album: &AlbumInfo) -> (url: Option<String>)
    ensures
        text_of(url) == cover_url(album@),
{
    match &album.album_art_url {
        Some(url) => {
            if url.as_str().is_empty() {
                None
            } else {
                Some(url.clone())
            }
        },
        None => None,
    }
}

impl Pipeline {
    /// Begins the work on a finished transfer and says what to do first.
    pub fn start(completion: Completion, track_format: &str) -> (begun: (Pipeline, Action))
        ensures
            (begun.0@, begun.1@) == started(completion@, track_format@),
    {
        let request = completion.request;
        match completion.result {
            Err(words) => {
                let mut detail = words;
                detail.append(" - <");
                detail.append(request.track.url.as_str());
                detail.append(">");
                (
                    Pipeline { request, path: String::new(), payload: Vec::new(), stage: Stage::Done },
                    Action::Report(Outcome::Failed(Error::Http(detail))),
                )
            },
            Ok(bytes) => {
                match make_path(&request.track, &request.album, request.root.as_str(), track_format) {
                    Ok(path) => {
                        let asked = path.clone();
                        (
                            Pipeline { request, path, payload: bytes, stage: Stage::CheckingPath },
                            Action::CheckExists { path: asked },
                        )
                    },
                    Err(error) => (
                        Pipeline {
                            request,
                            path: String::new(),
                            payload: Vec::new(),
                            stage: Stage::Done,
                        },
                        Action::Report(Outcome::Failed(error)),
                    ),
                }
            },
        }
    }

    /// Whether the outcome has been handed out.
    pub fn is_done(&self) -> (done: bool)
        ensures
            done == (self@.stage == Stage::Done),
    {
        self.stage == Stage::Done
    }

    /// Ends the work with an outcome.
    fn report(&mut self, outcome: Outcome) -> (action: Action)
        ensures
            (final(self)@, action@) == reporting(old(self)@, outcome@),
    {
        self.stage = Stage::Done;
        Action::Report(outcome)
    }

    /// Asks for the tags to be embedded.
    fn tag(&mut self, art: Option<Vec<u8>>) -> (action: Action)
        ensures
            (final(self)@, action@) == tagging(old(self)@, bytes_of(art)),
    {
        self.stage = Stage::Tagging;
        let release_date = timestamp(self.request.album.release_date.as_str());
        Action::WriteTags {
            path: self.path.clone(),
            tags: tag_mp3(art, release_date, &self.request.track, &self.request.album),
        }
    }

    /// Takes in the caller's reply and says what to do next.
    pub fn advance(&mut self, reply: Reply) -> (action: Action)
        ensures
            (final(self)@, action@) == advanced(old(self)@, reply@),
    {
        match self.stage {
            Stage::CheckingPath => match reply {
                Reply::Exists(exists) => {
                    if exists {
                        let file = self.path.clone();
                        self.report(Outcome::Skipped(Error::FileExist(file)))
                    } else {
                        let mut bytes: Vec<u8> = Vec::new();
                        core::mem::swap(&mut self.payload, &mut bytes);
                        self.stage = Stage::Writing;
                        Action::WriteFile { path: self.path.clone(), bytes }
                    }
                },
                _ => self.out_of_order(),
            },
            Stage::Writing => match reply {
                Reply::Written(Ok(_)) => match cover_art_url(&self.request.album) {
                    Some(url) => {
                        self.stage = Stage::FetchingCover;
                        Action::FetchCover { url }
                    },
                    None => self.tag(None),
                },
                Reply::Written(Err(words)) => self.report(Outcome::Failed(Error::IO(words))),
                _ => self.out_of_order(),
            },
            Stage::FetchingCover => match reply {
                Reply::Cover(art) => self.tag(art),
                _ => self.out_of_order(),
            },
            Stage::Tagging => match reply {
                Reply::Tagged(Ok(_)) => {
                    let file = self.path.clone();
                    self.report(Outcome::Saved(file))
                },
                Reply::Tagged(Err(words)) => self.report(Outcome::Failed(Error::Tag(words))),
                _ => self.out_of_order(),
            },
            Stage::Done => self.out_of_order(),
        }
    }

    /// Ends the work because the reply does not answer what was asked.
    fn out_of_order(&mut self) -> (action: Action)
        ensures
            (final(self)@, action@) == reporting(
                old(self)@,
                failure(ErrorKind::General, "reply out of order"@),
            ),
    {
        self.report(Outcome::Failed(Error::General("reply out of order".to_string())))
    }
}

/// A destination that exists is never written: the pipeline answers with a
/// skip that names the file, and is done.
pub proof fn lemma_existing_file_is_skipped(pipeline: PipelineView)
    requires
        pipeline.stage == Stage::CheckingPath,
    ensures
        advanced(pipeline, ReplyView::Exists(true)).1 == ActionView::Report(
            OutcomeView::Skipped(ErrorView { kind: ErrorKind::FileExist, detail: pipeline.path }),
        ),
        advanced(pipeline, ReplyView::Exists(true)).0.stage == Stage::Done,
{
}

/// A transfer that the transport gave up writes nothing: its pipeline is done
/// at once, with an `Http` failure.
pub proof fn lemma_failed_transfer_writes_nothing(
    completion: CompletionView,
    format: Seq<char>,
    words: Seq<char>,
)
    requires
        completion.result == Err::<Seq<u8>, Seq<char>>(words),
    ensures
        started(completion, format).0.stage == Stage::Done,
        started(completion, format).1 == ActionView::Report(
            OutcomeView::Failed(transport_failure(words, completion.request.track.url)),
        ),
{
}

/// The file is asked to be written only in answer to the news that the
/// destination is free, and with what was received.
pub proof fn lemma_write_follows_free_path(pipeline: PipelineView, reply: ReplyView)
    requires
        advanced(pipeline, reply).1 is WriteFile,
    ensures
        pipeline.stage == Stage::CheckingPath,
        reply == ReplyView::Exists(false),
        advanced(pipeline, reply).1 == (ActionView::WriteFile {
            path: pipeline.path,
            bytes: pipeline.payload,
        }),
{
}

/// How many replies a pipeline can still take in before it is done.
pub open spec fn steps_left(stage: Stage) -> nat {
    match stage {
        Stage::CheckingPath => 4,
        Stage::Writing => 3,
        Stage::FetchingCover => 2,
        Stage::Tagging => 1,
        Stage::Done => 0,
    }
}

/// Every reply brings a pipeline closer to its end, and only the last action
/// of a pipeline is a report: the work on a transfer ends after four replies
/// at most, with one outcome.
pub proof fn lemma_every_reply_advances(pipeline: PipelineView, reply: ReplyView)
    requires
        pipeline.stage != Stage::Done,
    ensures
        steps_left(advanced(pipeline, reply).0.stage) < steps_left(pipeline.stage),
        advanced(pipeline, reply).1 is Report <==> advanced(pipeline, reply).0.stage
            == Stage::Done,
        advanced(pipeline, reply).0.request == pipeline.request,
        advanced(pipeline, reply).0.path == pipeline.path,
{
}

/// Once done, a pipeline asks for nothing but to report.
pub proof fn lemma_done_stays_done(pipeline: PipelineView, reply: ReplyView)
    requires
        pipeline.stage == Stage::Done,
    ensures
        advanced(pipeline, reply).0.stage == Stage::Done,
        advanced(pipeline, reply).1 is Report,
{
}

} // verus!
