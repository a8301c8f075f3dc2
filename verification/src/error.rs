//! The closed set of failure kinds that every operation reports.

use vstd::prelude::*;

verus! {

/// What went wrong, so that callers can branch without matching on text.
#[derive(Clone, Copy, Debug, PartialEq, Eq, Structural)]
pub enum ErrorKind {
    /// A file was missing, unreadable or unwritable.
    Io,
    /// Structured or dynamic text was malformed, or a value could not be
    /// written as such text.
    Parse,
    /// A rule on the request was broken: a required field is missing, the
    /// active provider would be deleted without force, a name or a credential
    /// is empty, or the settings do not have the expected shape.
    Validation,
    /// No credential is stored for the requested provider.
    NotFound,
}

/// A failure: its kind and a message for the user.
#[derive(Debug, PartialEq)]
pub struct ConfigError {
    pub kind: ErrorKind,
    pub message: String,
}

impl View for ConfigError {
    type V = (ErrorKind, Seq<char>);

    open spec fn view(&self) -> (ErrorKind, Seq<char>) {
        (self.kind, self.message@)
    }
}

impl ConfigError {
    /// A failure of kind `kind` with `message` as its text.
    pub fn new(kind: ErrorKind, message: &str) -> (r: ConfigError)
        ensures
            r@ == (kind, message@),
    {
        ConfigError { kind, message: message.to_owned() }
    }

    /// A failure whose text is `prefix` followed by `detail`.
    pub fn with_detail(kind: ErrorKind, prefix: &str, detail: &str) -> (r: ConfigError)
        ensures
            r@ == (kind, prefix@ + detail@),
    {
        let mut message = prefix.to_owned();
        message.append(detail);
        ConfigError { kind, message }
    }

    /// The kind of the failure.
    pub fn kind(&self) -> (r: ErrorKind)
        ensures
            r == self.kind,
    {
        self.kind
    }

    /// The message of the failure.
    pub fn message(&self) -> (r: String)
        ensures
            r@ == self.message@,
    {
        self.message.clone()
    }
}

} // verus!
