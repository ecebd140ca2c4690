//! Diagnostics: one error type with a severity, a message and the text of the
//! cause, if there is one.

use vstd::prelude::*;
use vstd::string::*;
use crate::text::opt_text;

verus! {

/// How severe a diagnostic is.
#[derive(Debug, Clone, Copy, PartialEq, Eq, Structural)]
pub enum Level {
    Fatal,
    Error,
    Warning,
    Info,
}

/// What a diagnostic is about.
#[derive(Debug, Clone, Copy, PartialEq, Eq, Structural)]
pub enum Kind {
    /// The manifest or the command line: a field that is missing or invalid,
    /// no entry file, a viewer that is not supported.
    Configuration,
    /// A source file that the target lists does not exist.
    Validation,
    /// A source file that cannot be read or parsed.
    Parse,
    /// An external process that could not be started or waited for, or that
    /// reported failure.
    Toolchain,
    /// A generated artifact or the catalog could not be relocated.
    Filesystem,
}

/// A diagnostic: what went wrong, how badly, what it is about, and what the
/// underlying failure said of itself.
#[derive(Debug)]
pub struct GbError {
    pub message: String,
    pub level: Level,
    pub kind: Kind,
    pub source: Option<String>,
}

/// The text a diagnostic with message `message` is reported as.
pub open spec fn report_text(message: Seq<char>) -> Seq<char> {
    "[gb-error] [build]: "@ + message + ". Aborting."@
}

impl GbError {
    /// Whether this is a fatal diagnostic of this kind, with exactly this
    /// message and cause.
    pub open spec fn is_fatal(
        &self,
        kind: Kind,
        message: Seq<char>,
        cause: Option<Seq<char>>,
    ) -> bool {
        &&& self.level == Level::Fatal
        &&& self.kind == kind
        &&& self.message@ == message
        &&& opt_text(self.source) == cause
    }

    /// A fatal diagnostic without an underlying cause.
    pub fn fatal(kind: Kind, message: String) -> (e: GbError)
        ensures
            e.is_fatal(kind, message@, None),
    {
        GbError { message, level: Level::Fatal, kind, source: None }
    }

    /// A fatal diagnostic that carries the text of its cause.
    pub fn fatal_with_source(kind: Kind, message: String, cause: String) -> (e: GbError)
        ensures
            e.is_fatal(kind, message@, Some(cause@)),
    {
        GbError { message, level: Level::Fatal, kind, source: Some(cause) }
    }

    /// The line shown to the user.
    pub fn report(&self) -> (line: String)
        ensures
            line@ == report_text(self.message@),
    {
        let head = String::from_str("[gb-error] [build]: ");
        let with_message = head.concat(self.message.as_str());
        with_message.concat(". Aborting.")
    }
}

} // verus!
