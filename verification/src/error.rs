//! What can go wrong, as plain values.

use crate::network::{Addr, AddrView};
use crate::text::{push_bytes, push_str};
use vstd::prelude::*;
use vstd::string::StringSliceAdditionalSpecFns;

verus! {

/// The kinds of I/O failure that the proxy tells apart.
#[derive(Debug, Clone, Copy, PartialEq, Eq, Hash, Structural)]
pub enum IoErrorKind {
    NotFound,
    AddrInUse,
    NotConnected,
    WouldBlock,
    InvalidInput,
    Interrupted,
    UnexpectedEof,
    Unsupported,
    Other,
}

/// An I/O failure: its kind, and the text that describes it.
#[derive(Debug, Clone, PartialEq, Eq)]
pub struct IoError {
    pub kind: IoErrorKind,
    pub message: Vec<u8>,
}

/// What an [`IoError`] stands for.
pub struct IoErrorView {
    pub kind: IoErrorKind,
    pub message: Seq<u8>,
}

impl View for IoError {
    type V = IoErrorView;

    open spec fn view(&self) -> IoErrorView {
        IoErrorView { kind: self.kind, message: self.message@ }
    }
}

impl IoError {
    /// An error of the given kind that `message` describes.
    pub fn new(kind: IoErrorKind, message: &str) -> (e: IoError)
        ensures
            e@ == (IoErrorView { kind, message: message.spec_bytes() }),
    {
        let mut text: Vec<u8> = Vec::new();
        push_str(&mut text, message);
        assert(text@ =~= message.spec_bytes());
        IoError { kind, message: text }
    }

    /// Whether the operation would have had to wait.
    pub fn would_block(&self) -> (b: bool)
        ensures
            b <==> self.kind == IoErrorKind::WouldBlock,
    {
        self.kind == IoErrorKind::WouldBlock
    }

    /// A copy of the error.
    pub fn duplicate(&self) -> (e: IoError)
        ensures
            e@ == self@,
    {
        IoError { kind: self.kind, message: self.message.clone() }
    }
}

/// Errors that can occur in the proxy.
#[derive(Debug, PartialEq, Eq)]
pub enum Error {
    CreatePoll(IoError),
    StartListening(Vec<u8>, IoError),
    Poll(IoError),
    Accept(Addr, IoError),
    Connect,
    Forward { doing: &'static str, side: &'static str, err: IoError },
    Other(Vec<u8>),
}

/// What an [`Error`] stands for.
pub enum ErrorView {
    CreatePoll(IoErrorView),
    StartListening(Seq<u8>, IoErrorView),
    Poll(IoErrorView),
    Accept(AddrView, IoErrorView),
    Connect,
    Forward { doing: Seq<u8>, side: Seq<u8>, err: IoErrorView },
    Other(Seq<u8>),
}

impl View for Error {
    type V = ErrorView;

    open spec fn view(&self) -> ErrorView {
        match *self {
            Error::CreatePoll(e) => ErrorView::CreatePoll(e@),
            Error::StartListening(a, e) => ErrorView::StartListening(a@, e@),
            Error::Poll(e) => ErrorView::Poll(e@),
            Error::Accept(a, e) => ErrorView::Accept(a@, e@),
            Error::Connect => ErrorView::Connect,
            Error::Forward { doing, side, err } => ErrorView::Forward {
                doing: doing.spec_bytes(),
                side: side.spec_bytes(),
                err: err@,
            },
            Error::Other(m) => ErrorView::Other(m@),
        }
    }
}

impl ErrorView {
    /// The text that describes the error.
    pub open spec fn message(self) -> Seq<u8> {
        match self {
            ErrorView::CreatePoll(e) => "Could not create mio poller: ".spec_bytes() + e.message,
            ErrorView::StartListening(a, e) => "Could not listen on ".spec_bytes() + a
                + ": ".spec_bytes() + e.message,
            ErrorView::Poll(e) => "Could not poll: ".spec_bytes() + e.message,
            ErrorView::Accept(a, e) => "accept() failed on ".spec_bytes() + a.text()
                + ": ".spec_bytes() + e.message,
            ErrorView::Connect => "None of the servers responded".spec_bytes(),
            ErrorView::Forward { doing, side, err } => "forwarding failed when ".spec_bytes()
                + doing + " ".spec_bytes() + side + ": ".spec_bytes() + err.message,
            ErrorView::Other(m) => m,
        }
    }
}

impl Error {
    /// Append the text that describes the error to `out`.
    pub fn push_message(&self, out: &mut Vec<u8>)
        ensures
            final(out)@ == old(out)@ + self@.message(),
    {
        match self {
            Error::CreatePoll(e) => {
                push_str(out, "Could not create mio poller: ");
                push_bytes(out, e.message.as_slice());
                assert(out@ =~= old(out)@ + self@.message());
            },
            Error::StartListening(a, e) => {
                push_str(out, "Could not listen on ");
                push_bytes(out, a.as_slice());
                push_str(out, ": ");
                push_bytes(out, e.message.as_slice());
                assert(out@ =~= old(out)@ + self@.message());
            },
            Error::Poll(e) => {
                push_str(out, "Could not poll: ");
                push_bytes(out, e.message.as_slice());
                assert(out@ =~= old(out)@ + self@.message());
            },
            Error::Accept(a, e) => {
                push_str(out, "accept() failed on ");
                a.push_text(out);
                push_str(out, ": ");
                push_bytes(out, e.message.as_slice());
                assert(out@ =~= old(out)@ + self@.message());
            },
            Error::Connect => {
                push_str(out, "None of the servers responded");
            },
            Error::Forward { doing, side, err } => {
                push_str(out, "forwarding failed when ");
                push_str(out, doing);
                push_str(out, " ");
                push_str(out, side);
                push_str(out, ": ");
                push_bytes(out, err.message.as_slice());
                assert(out@ =~= old(out)@ + self@.message());
            },
            Error::Other(m) => {
                push_bytes(out, m.as_slice());
            },
        }
    }

    /// The text that describes the error.
    pub fn message(&self) -> (out: Vec<u8>)
        ensures
            out@ == self@.message(),
    {
        let mut out: Vec<u8> = Vec::new();
        self.push_message(&mut out);
        assert(Seq::<u8>::empty() + self@.message() =~= self@.message());
        out
    }
}

} // verus!
