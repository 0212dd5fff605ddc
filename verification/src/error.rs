//! The ways in which work on a page or a track can fail.

use vstd::prelude::*;

verus! {

/// The kind of an [`Error`], without its text.
#[derive(Clone, Copy, Debug, PartialEq, Eq, Structural)]
pub enum ErrorKind {
    FileExist,
    Http,
    IO,
    Scrape,
    Tag,
    Thread,
    General,
}

/// What an [`Error`] holds, as mathematical values.
pub struct ErrorView {
    pub kind: ErrorKind,
    pub detail: Seq<char>,
}

/// A failure, with the text that explains it. For `FileExist` the text is the
/// path of the file; for every other kind it is the reason.
#[derive(Debug)]
pub enum Error {
    /// The destination is already there: the track is skipped.
    FileExist(String),
    /// The transfer failed.
    Http(String),
    /// The disk refused.
    IO(String),
    /// The page has no shape that the scraper knows.
    Scrape(String),
    /// The tags could not be embedded.
    Tag(String),
    Thread(String),
    General(String),
}

impl View for Error {
    type V = ErrorView;

    open spec fn view(&self) -> ErrorView {
        match self {
            Error::FileExist(file) => ErrorView { kind: ErrorKind::FileExist, detail: file@ },
            Error::Http(reason) => ErrorView { kind: ErrorKind::Http, detail: reason@ },
            Error::IO(reason) => ErrorView { kind: ErrorKind::IO, detail: reason@ },
            Error::Scrape(reason) => ErrorView { kind: ErrorKind::Scrape, detail: reason@ },
            Error::Tag(reason) => ErrorView { kind: ErrorKind::Tag, detail: reason@ },
            Error::Thread(reason) => ErrorView { kind: ErrorKind::Thread, detail: reason@ },
            Error::General(reason) => ErrorView { kind: ErrorKind::General, detail: reason@ },
        }
    }
}

impl ErrorView {
    /// The line that describes the error to a user.
    pub open spec fn message(self) -> Seq<char> {
        if self.kind == ErrorKind::FileExist {
            "File "@ + self.detail + " already exist!"@
        } else {
            self.detail
        }
    }
}

impl Error {
    /// The kind of this error.
    pub fn kind(&self) -> (kind: ErrorKind)
        ensures
            kind == self@.kind,
    {
        match self {
            Error::FileExist(_) => ErrorKind::FileExist,
            Error::Http(_) => ErrorKind::Http,
            Error::IO(_) => ErrorKind::IO,
            Error::Scrape(_) => ErrorKind::Scrape,
            Error::Tag(_) => ErrorKind::Tag,
            Error::Thread(_) => ErrorKind::Thread,
            Error::General(_) => ErrorKind::General,
        }
    }

    /// A general error with the given reason.
    pub fn general(reason: &str) -> (error: Self)
        ensures
            error@ == (ErrorView { kind: ErrorKind::General, detail: reason@ }),
    {
        Error::General(reason.to_string())
    }

    /// The line that describes the error to a user: for an existing file a
    /// sentence that names it, for any other kind the reason as it is.
    pub fn message(&self) -> (line: String)
        ensures
            line@ == self@.message(),
    {
        match self {
            Error::FileExist(file) => {
                let mut line = "File ".to_string();
                line.append(file.as_str());
                line.append(" already exist!");
                line
            },
            Error::Http(reason) => reason.clone(),
            Error::IO(reason) => reason.clone(),
            Error::Scrape(reason) => reason.clone(),
            Error::Tag(reason) => reason.clone(),
            Error::Thread(reason) => reason.clone(),
            Error::General(reason) => reason.clone(),
        }
    }
}

impl Clone for Error {
    fn clone(&self) -> (copy: Self)
        ensures
            copy@ == self@,
    {
        match self {
            Error::FileExist(file) => Error::FileExist(file.clone()),
            Error::Http(reason) => Error::Http(reason.clone()),
            Error::IO(reason) => Error::IO(reason.clone()),
            Error::Scrape(reason) => Error::Scrape(reason.clone()),
            Error::Tag(reason) => Error::Tag(reason.clone()),
            Error::Thread(reason) => Error::Thread(reason.clone()),
            Error::General(reason) => Error::General(reason.clone()),
        }
    }
}

/// Two errors are equal when they are of the same kind, whatever their text.
impl PartialEq for Error {
    fn eq(&self, other: &Self) -> (same: bool) {
        self.kind() == other.kind()
    }
}

impl vstd::std_specs::cmp::PartialEqSpecImpl for Error {
    open spec fn obeys_eq_spec() -> bool {
        true
    }

    open spec fn eq_spec(&self, other: &Self) -> bool {
        self@.kind == other@.kind
    }
}

} // verus!
