//! The errors of the data-channel surface, as the guest sees them.

use vstd::prelude::*;

use crate::text::concat2;

verus! {

/// What an operation on a connection, a channel or a mailbox can fail with.
#[derive(Debug, Clone)]
pub enum Error {
    Closed,
    TimedOut,
    InvalidSignaling(String),
    ReceivingViaStream,
    ReceiveBufferOverflow,
    Other(String),
}

/// The contents of an [`Error`].
pub enum ErrorView {
    Closed,
    TimedOut,
    InvalidSignaling(Seq<char>),
    ReceivingViaStream,
    ReceiveBufferOverflow,
    Other(Seq<char>),
}

impl View for Error {
    type V = ErrorView;

    open spec fn view(&self) -> ErrorView {
        match self {
            Error::Closed => ErrorView::Closed,
            Error::TimedOut => ErrorView::TimedOut,
            Error::InvalidSignaling(detail) => ErrorView::InvalidSignaling(detail@),
            Error::ReceivingViaStream => ErrorView::ReceivingViaStream,
            Error::ReceiveBufferOverflow => ErrorView::ReceiveBufferOverflow,
            Error::Other(detail) => ErrorView::Other(detail@),
        }
    }
}

impl ErrorView {
    /// A short description of an error for failure details.
    pub open spec fn described(self) -> Seq<char> {
        match self {
            ErrorView::Closed => "closed"@,
            ErrorView::TimedOut => "timed-out"@,
            ErrorView::InvalidSignaling(detail) => "invalid-signaling: "@ + detail,
            ErrorView::ReceivingViaStream => "receiving-via-stream"@,
            ErrorView::ReceiveBufferOverflow => "receive-buffer-overflow"@,
            ErrorView::Other(detail) => "other: "@ + detail,
        }
    }
}

/// A short description of an error for failure details.
pub fn describe(error: &Error) -> (r: String)
    ensures
        r@ == error@.described(),
{
    match error {
        Error::Closed => "closed".to_string(),
        Error::TimedOut => "timed-out".to_string(),
        Error::InvalidSignaling(detail) => concat2("invalid-signaling: ", detail.as_str()),
        Error::ReceivingViaStream => "receiving-via-stream".to_string(),
        Error::ReceiveBufferOverflow => "receive-buffer-overflow".to_string(),
        Error::Other(detail) => concat2("other: ", detail.as_str()),
    }
}

/// The descriptions tell the errors apart: two errors that read alike are the same, with
/// the same detail. An error without a detail reads as its kind alone.
pub proof fn law_descriptions_tell_errors_apart(a: ErrorView, b: ErrorView)
    ensures
        a.described() == b.described() <==> a == b,
        a.described() == "closed"@ <==> a is Closed,
        a.described() == "timed-out"@ <==> a is TimedOut,
        a.described() == "receiving-via-stream"@ <==> a is ReceivingViaStream,
        a.described() == "receive-buffer-overflow"@ <==> a is ReceiveBufferOverflow,
        a matches ErrorView::InvalidSignaling(detail) ==> a.described() == "invalid-signaling: "@
            + detail,
        a matches ErrorView::Other(detail) ==> a.described() == "other: "@ + detail,
{
    reveal_strlit("closed");
    reveal_strlit("timed-out");
    reveal_strlit("invalid-signaling: ");
    reveal_strlit("receiving-via-stream");
    reveal_strlit("receive-buffer-overflow");
    reveal_strlit("other: ");
    assert("closed"@[0] == 'c' && "timed-out"@[0] == 't' && "receiving-via-stream"@[0] == 'r');
    assert("receive-buffer-overflow"@[0] == 'r');
    assert("receiving-via-stream"@.len() != "receive-buffer-overflow"@.len());
    match a {
        ErrorView::InvalidSignaling(detail) => {
            assert(a.described()[0] == 'i');
            assert(a.described().skip(19) =~= detail);
        },
        ErrorView::Other(detail) => {
            assert(a.described()[0] == 'o');
            assert(a.described().skip(7) =~= detail);
        },
        _ => {},
    }
    match b {
        ErrorView::InvalidSignaling(detail) => {
            assert(b.described()[0] == 'i');
            assert(b.described().skip(19) =~= detail);
        },
        ErrorView::Other(detail) => {
            assert(b.described()[0] == 'o');
            assert(b.described().skip(7) =~= detail);
        },
        _ => {},
    }
}

} // verus!
