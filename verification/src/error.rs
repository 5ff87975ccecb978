//! The one error type of the crate: a kind and a message.

use vstd::prelude::*;

verus! {

/// What went wrong, by where it went wrong.
#[derive(Debug, Clone, Copy, PartialEq, Eq, Structural)]
pub enum ErrorKind {
    /// A socket could not be opened, bound, written or read, or the
    /// family could not be resolved.
    Transport,
    /// The kernel answered with a negative acknowledgement or with a
    /// message that does not belong in the exchange.
    Protocol,
    /// An attribute is missing, truncated or of the wrong length.
    Decode,
    /// The caller asked for something that does not exist.
    Domain,
    /// The file system could not be read.
    Io,
}

impl ErrorKind {
    /// The kind's name in text.
    pub open spec fn name(self) -> Seq<char> {
        match self {
            ErrorKind::Transport => "transport"@,
            ErrorKind::Protocol => "protocol"@,
            ErrorKind::Decode => "decode"@,
            ErrorKind::Domain => "domain"@,
            ErrorKind::Io => "io"@,
        }
    }

    pub fn string(&self) -> (s: &'static str)
        ensures
            s@ == self.name(),
    {
        match self {
            ErrorKind::Transport => "transport",
            ErrorKind::Protocol => "protocol",
            ErrorKind::Decode => "decode",
            ErrorKind::Domain => "domain",
            ErrorKind::Io => "io",
        }
    }
}

/// An error of this crate.
#[derive(Debug, Clone, PartialEq, Eq)]
pub struct Nl80211Error {
    pub kind: ErrorKind,
    pub message: String,
}

/// An error in specifications.
pub struct Failure {
    pub kind: ErrorKind,
    pub message: Seq<char>,
}

impl View for Nl80211Error {
    type V = Failure;

    open spec fn view(&self) -> Failure {
        Failure { kind: self.kind, message: self.message@ }
    }
}

impl Nl80211Error {
    /// Whether the error is of `kind` and says `message`.
    pub open spec fn is(self, kind: ErrorKind, message: Seq<char>) -> bool {
        self@ == (Failure { kind, message })
    }

    pub fn new(kind: ErrorKind, message: &str) -> (e: Nl80211Error)
        ensures
            e.is(kind, message@),
    {
        Nl80211Error { kind, message: String::from_str(message) }
    }

    /// The kind's name, a colon and a space, then the message.
    pub fn describe(&self) -> (s: String)
        ensures
            s@ == self.kind.name() + ": "@ + self.message@,
    {
        let mut s = String::from_str(self.kind.string());
        s.append(": ");
        s.append(self.message.as_str());
        s
    }
}

} // verus!
