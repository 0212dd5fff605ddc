//! The lines that the program writes about its own work.

use vstd::prelude::*;

verus! {

/// How grave a message is.
#[derive(Clone, Copy, Debug, PartialEq, Eq, Structural)]
pub enum Logger {
    Info,
    Warn,
    Error,
}

impl Logger {
    /// The word that stands before a message of this level.
    pub open spec fn spec_label(self) -> Seq<char> {
        match self {
            Logger::Info => "INFO"@,
            Logger::Warn => "WARN"@,
            Logger::Error => "ERROR"@,
        }
    }

    /// The line of a message of this level: the label, a colon, a space and
    /// the message.
    pub open spec fn line(self, msg: Seq<char>) -> Seq<char> {
        self.spec_label() + ": "@ + msg
    }

    /// The word that stands before a message of this level.
    pub fn label(&self) -> (label: &'static str)
        ensures
            label@ == self.spec_label(),
    {
        match self {
            Logger::Info => "INFO",
            Logger::Warn => "WARN",
            Logger::Error => "ERROR",
        }
    }

    /// Whether messages of this level go to the error stream: all but
    /// information do.
    pub fn to_stderr(&self) -> (errors: bool)
        ensures
            errors == (*self != Logger::Info),
    {
        match self {
            Logger::Info => false,
            Logger::Warn => true,
            Logger::Error => true,
        }
    }

    /// The line of a message of this level, without colours.
    pub fn log(&self, msg: String) -> (line: String)
        ensures
            line@ == self.line(msg@),
    {
        let mut line = self.label().to_string();
        line.append(": ");
        line.append(msg.as_str());
        line
    }

    /// The line of an error.
    pub fn error(msg: String) -> (line: String)
        ensures
            line@ == Logger::Error.line(msg@),
    {
        Logger::Error.log(msg)
    }

    /// The line of a warning.
    pub fn warn(msg: String) -> (line: String)
        ensures
            line@ == Logger::Warn.line(msg@),
    {
        Logger::Warn.log(msg)
    }

    /// The line of a piece of information.
    pub fn info(msg: String) -> (line: String)
        ensures
            line@ == Logger::Info.line(msg@),
    {
        Logger::Info.log(msg)
    }
}

} // verus!
