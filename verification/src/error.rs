//! The error type of the framing layer.

use vstd::prelude::*;

verus! {

/// Why an operation of the framing layer failed.
#[derive(Clone, Copy, Debug, PartialEq, Eq, Structural)]
pub enum ErrorKind {
    /// A frame offered for sending does not fit the two-byte length field.
    TooLong,
    /// A frame was asked for before one was complete.
    NotReady,
    /// The transport reported a failure.
    Transport,
}

/// The text of the error for a frame that is too long to send.
pub open spec fn too_long_text() -> Seq<char> {
    "frame data too long"@
}

/// The text of the error for a frame that is not there to be picked up.
pub open spec fn not_ready_text() -> Seq<char> {
    "frame not available"@
}

/// The text of the error for a transport that failed to take a byte.
pub open spec fn send_failure_text() -> Seq<char> {
    "unexpected error during try_send_byte()"@
}

/// The text of the error for a transport that failed to give a byte.
pub open spec fn recv_failure_text() -> Seq<char> {
    "unexpected error during try_recv_byte()"@
}

/// The two transport failures can be told apart by their text.
pub proof fn lemma_failure_texts_differ()
    ensures
        send_failure_text() != recv_failure_text(),
{
    reveal_strlit("unexpected error during try_send_byte()");
    reveal_strlit("unexpected error during try_recv_byte()");
    assert(send_failure_text()[28] == 's');
    assert(recv_failure_text()[28] == 'r');
}

/// A stand-in for `std::error::Error` where the standard library is absent.
pub trait StdError {
    /// A short description of the error.
    ///
    /// The description should not contain newlines or sentence-ending
    /// punctuation, to facilitate embedding in larger user-facing
    /// strings.
    fn description(&self) -> &str;
}

/// Error type.
#[derive(Debug)]
pub struct Error {
    kind: ErrorKind,
    descr: String,
}

impl Error {
    /// The kind of this error, as contracts speak of it.
    pub closed spec fn spec_kind(&self) -> ErrorKind {
        self.kind
    }

    /// The text of this error, as contracts speak of it.
    pub closed spec fn message(&self) -> Seq<char> {
        self.descr@
    }

    /// Creates a transport error that carries the message `s`.
    pub fn new(s: String) -> (e: Error)
        ensures
            e.kind() == ErrorKind::Transport,
            e.message() == s@,
    {
        Error { kind: ErrorKind::Transport, descr: s }
    }

    /// Creates an error of the given kind that carries the message `text`.
    pub fn with_kind(kind: ErrorKind, text: &str) -> (e: Error)
        ensures
            e.kind() == kind,
            e.message() == text@,
    {
        Error { kind, descr: text.to_owned() }
    }

    /// The error as a line of text for a reader: `Error: ` and the message.
    pub fn to_string(&self) -> (line: String)
        ensures
            line@ == "Error: "@ + self.message(),
    {
        "Error: ".to_owned().concat(self.descr.as_str())
    }

    /// The kind of this error.
    #[verifier::when_used_as_spec(spec_kind)]
    pub fn kind(&self) -> (k: ErrorKind)
        ensures
            k == self.spec_kind(),
    {
        self.kind
    }
}

impl StdError for Error {
    fn description(&self) -> (text: &str)
        ensures
            text@ == self.message(),
    {
        self.descr.as_str()
    }
}

} // verus!
