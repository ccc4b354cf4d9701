//! One direction of a forwarded connection.
//!
//! A [`Copying`] moves bytes from the socket they are read from to the socket
//! they are written to, through a buffer of fixed size. It never touches a
//! socket itself: [`Copying::handle_one`] says what to do next, the caller
//! does it and comes back with what happened.

use crate::error::{Error, ErrorView, IoError, IoErrorKind, IoErrorView};
use crate::event::{
    receiver_of, sender_of, ConnectionId, ConnectionSink, Direction, EventView,
};
use crate::text::push_str;
use vstd::prelude::*;
use vstd::slice::slice_subrange;
use vstd::string::StringSliceAdditionalSpecFns;

verus! {

/// Size of the buffer of each direction.
pub const BUFSIZE: usize = 8192;

/// The byte that a client on a Unix Domain socket sends first.
pub const SENTINEL: u8 = 0x30;

/// What a [`Copying`] is waiting to hear about.
#[derive(Debug, Clone, Copy, PartialEq, Eq, Structural)]
pub enum Awaiting {
    /// The start of a pass.
    Start,
    /// The outcome of writing the unsent bytes.
    Write,
    /// The outcome of reading more bytes.
    Read,
}

/// What came of the action that a [`Copying`] asked for.
#[derive(Debug)]
pub enum PumpInput<'a> {
    /// Nothing was asked for: a new pass starts.
    Start,
    /// The unsent bytes were offered to the write side. It took so many of
    /// them; zero if it does not accept data any longer.
    Wrote(Result<usize, IoError>),
    /// The read side was asked for bytes. It gave these; none if it has no
    /// more to give.
    Read(Result<&'a [u8], IoError>),
}

/// What a [`PumpInput`] stands for.
pub enum PumpInputView {
    Start,
    Wrote(Result<usize, IoErrorView>),
    Read(Result<Seq<u8>, IoErrorView>),
}

impl<'a> View for PumpInput<'a> {
    type V = PumpInputView;

    open spec fn view(&self) -> PumpInputView {
        match *self {
            PumpInput::Start => PumpInputView::Start,
            PumpInput::Wrote(Ok(n)) => PumpInputView::Wrote(Ok(n)),
            PumpInput::Wrote(Err(e)) => PumpInputView::Wrote(Err(e@)),
            PumpInput::Read(Ok(data)) => PumpInputView::Read(Ok(data@)),
            PumpInput::Read(Err(e)) => PumpInputView::Read(Err(e@)),
        }
    }
}

/// What the caller of [`Copying::handle_one`] is to do on with the sockets.
#[derive(Debug, Clone, Copy, PartialEq, Eq, Structural)]
pub enum Next {
    /// Offer [`Copying::unsent`] to the write side and come back with
    /// [`PumpInput::Wrote`].
    Write,
    /// Read up to `max` bytes from the read side and come back with
    /// [`PumpInput::Read`].
    Read { max: usize },
    /// The pass is over. `progress` tells whether anything has changed in it.
    Finished { progress: bool },
}

/// What [`Copying::handle_one`] asks of its caller: first to shut down what
/// it says of the two sockets, then to go on as `next` says.
#[derive(Debug, Clone, Copy, PartialEq, Eq, Structural)]
pub struct Request {
    /// Shut down the write half of the socket that is written to.
    pub shutdown_write: bool,
    /// Shut down the read half of the socket that is read from.
    pub shutdown_read: bool,
    pub next: Next,
}

/// The state of one direction, as the contracts see it.
pub struct CopyingView {
    /// Whether the read side may still give data.
    pub can_read: bool,
    /// Whether the write side may still take data.
    pub can_write: bool,
    /// Where in the buffer the unsent bytes start.
    pub unsent: nat,
    /// Where in the buffer the free space starts.
    pub free: nat,
    /// The bytes in the buffer that have not been written yet.
    pub pending: Seq<u8>,
    /// Whether the sentinel of a Unix Domain client is yet to be removed.
    pub fix_unix_read: bool,
    /// Whether anything has changed in the current pass.
    pub progress: bool,
    pub awaiting: Awaiting,
    /// What was put into the buffer when it was made.
    pub prefix: Seq<u8>,
    /// All bytes that the read side has given.
    pub received: Seq<u8>,
    /// The sentinel, once it has been removed.
    pub swallowed: Seq<u8>,
    /// All bytes that the write side has taken.
    pub delivered: Seq<u8>,
    /// The bytes that were left when the write side stopped taking data.
    pub discarded: Seq<u8>,
}

/// The outcome of one call of [`Copying::handle_one`], as the contract sees
/// it: the state afterwards, the events emitted, and what is returned.
pub struct Outcome {
    pub state: CopyingView,
    pub events: Seq<EventView>,
    pub result: Result<Request, ErrorView>,
}

impl CopyingView {
    /// The states that a [`Copying`] can be in.
    pub open spec fn wf(self) -> bool {
        &&& self.unsent <= self.free <= BUFSIZE
        &&& self.pending.len() == self.free - self.unsent
        &&& self.unsent < self.free ==> self.can_write
        &&& self.can_write ==> self.discarded.len() == 0
        &&& self.fix_unix_read ==> self.unsent == 0 && self.delivered.len() == 0
            && self.discarded.len() == 0 && self.swallowed.len() == 0
        &&& self.awaiting == Awaiting::Write ==> self.unsent < self.free && !(self.fix_unix_read)
        &&& self.awaiting == Awaiting::Read ==> self.can_read && self.can_write && self.free
            < BUFSIZE && !(self.fix_unix_read && self.free > 0)
        &&& self.conserved()
    }

    /// Nothing is lost and nothing is made up: what has come in is what has
    /// gone out, what has been thrown away and what is still in the buffer.
    pub open spec fn conserved(self) -> bool {
        self.prefix + self.received == self.swallowed + self.delivered + self.discarded
            + self.pending
    }

    /// A fresh direction.
    pub open spec fn initial(fix_unix_read: bool, fix_unix_write: bool) -> CopyingView {
        let prefix = if fix_unix_write {
            seq![SENTINEL]
        } else {
            Seq::empty()
        };
        CopyingView {
            can_read: true,
            can_write: true,
            unsent: 0,
            free: prefix.len(),
            pending: prefix,
            fix_unix_read,
            progress: false,
            awaiting: Awaiting::Start,
            prefix,
            received: Seq::empty(),
            swallowed: Seq::empty(),
            delivered: Seq::empty(),
            discarded: Seq::empty(),
        }
    }

    /// Whether both sides are closed.
    pub open spec fn finished(self) -> bool {
        !self.can_read && !self.can_write
    }

    /// Whether the first byte in the buffer is to be checked and removed.
    pub open spec fn sentinel_due(self) -> bool {
        self.fix_unix_read && self.free > 0
    }

    /// The state after the sentinel has been removed.
    pub open spec fn without_sentinel(self) -> CopyingView {
        CopyingView {
            unsent: 1,
            pending: self.pending.skip(1),
            fix_unix_read: false,
            swallowed: self.pending.take(1),
            ..self
        }
    }

    /// The state after the write side has taken `n` bytes, `n > 0`.
    pub open spec fn after_wrote(self, n: nat) -> CopyingView {
        CopyingView {
            unsent: self.unsent + n,
            pending: self.pending.skip(n as int),
            delivered: self.delivered + self.pending.take(n as int),
            progress: true,
            ..self
        }
    }

    /// The state after the write side has turned out to be closed.
    pub open spec fn after_write_closed(self) -> CopyingView {
        CopyingView {
            unsent: self.free,
            pending: Seq::empty(),
            discarded: self.discarded + self.pending,
            can_write: false,
            progress: true,
            ..self
        }
    }

    /// The state after an empty buffer has been reset, and a direction that
    /// has one side closed and nothing left to do has closed the other.
    pub open spec fn settled(self) -> CopyingView {
        if self.unsent == self.free {
            CopyingView {
                unsent: 0,
                free: 0,
                can_write: self.can_write && self.can_read,
                can_read: self.can_read && self.can_write,
                ..self
            }
        } else {
            self
        }
    }

    /// Whether settling closes the write side.
    pub open spec fn settling_closes_write(self) -> bool {
        self.unsent == self.free && self.can_write && !self.can_read
    }

    /// Whether settling closes the read side.
    pub open spec fn settling_closes_read(self) -> bool {
        self.unsent == self.free && self.can_read && !self.can_write
    }

    /// How many bytes may be read now.
    pub open spec fn read_space(self) -> nat {
        if self.can_read && self.can_write && self.free < BUFSIZE {
            (BUFSIZE - self.free) as nat
        } else {
            0
        }
    }

    /// The state after the read side has given `data`, which is not empty.
    pub open spec fn after_read(self, data: Seq<u8>) -> CopyingView {
        CopyingView {
            free: self.free + data.len(),
            pending: self.pending + data,
            received: self.received + data,
            progress: true,
            ..self
        }
    }

    /// The state after the read side has turned out to be closed.
    pub open spec fn after_read_closed(self) -> CopyingView {
        CopyingView { can_read: false, progress: true, ..self }
    }

    /// Whether `input` is what this state is waiting for, and is possible:
    /// no more is written than was offered, no more read than was asked for.
    pub open spec fn accepts(self, input: PumpInputView) -> bool {
        match input {
            PumpInputView::Start => self.awaiting == Awaiting::Start,
            PumpInputView::Wrote(r) => self.awaiting == Awaiting::Write && (r matches Ok(n)
                ==> n <= self.pending.len()),
            PumpInputView::Read(r) => self.awaiting == Awaiting::Read && (r matches Ok(data)
                ==> data.len() <= self.read_space()),
        }
    }

    /// The second half of a pass, after the write side has been seen to:
    /// settle, then ask for a read if there is room for one.
    pub open spec fn finish_writing(
        self,
        direction: Direction,
        id: ConnectionId,
        events: Seq<EventView>,
        shutdown_write: bool,
    ) -> Outcome {
        let settled = self.settled();
        let events = if self.settling_closes_read() {
            events.push(EventView::ShutdownRead { id, direction })
        } else {
            events
        };
        let next = if settled.read_space() > 0 {
            Next::Read { max: settled.read_space() as usize }
        } else {
            Next::Finished { progress: settled.progress }
        };
        Outcome {
            state: CopyingView {
                awaiting: if settled.read_space() > 0 {
                    Awaiting::Read
                } else {
                    Awaiting::Start
                },
                ..settled
            },
            events,
            result: Ok(
                Request {
                    shutdown_write: shutdown_write || self.settling_closes_write(),
                    shutdown_read: self.settling_closes_read(),
                    next,
                },
            ),
        }
    }

    /// What a failure on the write or read side makes of the pass.
    pub open spec fn failed(self, doing: &str, side: &str, err: IoErrorView) -> Outcome {
        Outcome {
            state: self,
            events: Seq::empty(),
            result: Err(
                ErrorView::Forward { doing: doing.spec_bytes(), side: side.spec_bytes(), err },
            ),
        }
    }

    /// One call of [`Copying::handle_one`]: what becomes of the state, which
    /// events are emitted and what is returned.
    pub open spec fn step(self, direction: Direction, id: ConnectionId, input: PumpInputView) -> Outcome {
        match input {
            PumpInputView::Start => {
                let fresh = CopyingView { progress: false, ..self };
                if self.sentinel_due() && self.pending[0] != SENTINEL {
                    Outcome {
                        state: self,
                        events: Seq::empty(),
                        result: Err(
                            ErrorView::Other(
                                "client did not start with a '0' (0x30) byte".spec_bytes(),
                            ),
                        ),
                    }
                } else {
                    let ready = if self.sentinel_due() {
                        fresh.without_sentinel()
                    } else {
                        fresh
                    };
                    if ready.pending.len() > 0 {
                        Outcome {
                            state: CopyingView { awaiting: Awaiting::Write, ..ready },
                            events: Seq::empty(),
                            result: Ok(
                                Request {
                                    shutdown_write: false,
                                    shutdown_read: false,
                                    next: Next::Write,
                                },
                            ),
                        }
                    } else {
                        ready.finish_writing(direction, id, Seq::empty(), false)
                    }
                }
            },
            PumpInputView::Wrote(Ok(n)) => {
                if n > 0 {
                    self.after_wrote(n as nat).finish_writing(direction, id, Seq::empty(), false)
                } else {
                    self.after_write_closed().finish_writing(
                        direction,
                        id,
                        seq![
                            EventView::ShutdownWrite {
                                id,
                                direction,
                                discard: (self.free - self.unsent) as usize,
                            },
                        ],
                        true,
                    )
                }
            },
            PumpInputView::Wrote(Err(err)) => {
                if err.kind == IoErrorKind::WouldBlock {
                    self.finish_writing(direction, id, Seq::empty(), false)
                } else {
                    self.failed("writing", receiver_of(direction), err)
                }
            },
            PumpInputView::Read(Ok(data)) => {
                if data.len() > 0 {
                    Outcome {
                        state: CopyingView { awaiting: Awaiting::Start, ..self.after_read(data) },
                        events: seq![EventView::Data { id, direction, data }],
                        result: Ok(
                            Request {
                                shutdown_write: false,
                                shutdown_read: false,
                                next: Next::Finished { progress: true },
                            },
                        ),
                    }
                } else {
                    Outcome {
                        state: CopyingView {
                            awaiting: Awaiting::Start,
                            ..self.after_read_closed()
                        },
                        events: seq![EventView::ShutdownRead { id, direction }],
                        result: Ok(
                            Request {
                                shutdown_write: false,
                                shutdown_read: true,
                                next: Next::Finished { progress: true },
                            },
                        ),
                    }
                }
            },
            PumpInputView::Read(Err(err)) => {
                if err.kind == IoErrorKind::WouldBlock {
                    Outcome {
                        state: CopyingView { awaiting: Awaiting::Start, ..self },
                        events: Seq::empty(),
                        result: Ok(
                            Request {
                                shutdown_write: false,
                                shutdown_read: false,
                                next: Next::Finished { progress: self.progress },
                            },
                        ),
                    }
                } else {
                    self.failed("reading", sender_of(direction), err)
                }
            },
        }
    }
}

/// What has flowed through a [`Copying`] so far.
pub struct Flow {
    pub prefix: Seq<u8>,
    pub received: Seq<u8>,
    pub swallowed: Seq<u8>,
    pub delivered: Seq<u8>,
    pub discarded: Seq<u8>,
}

/// One direction of a forwarded connection: the buffer that the bytes pass
/// through, and which of the two sides are still open.
pub struct Copying {
    can_read: bool,
    can_write: bool,
    buffer: Vec<u8>,
    unsent_data: usize,
    free_space: usize,
    fix_unix_read: bool,
    progress: bool,
    awaiting: Awaiting,
    flow: Ghost<Flow>,
}

impl View for Copying {
    type V = CopyingView;

    closed spec fn view(&self) -> CopyingView {
        CopyingView {
            can_read: self.can_read,
            can_write: self.can_write,
            unsent: self.unsent_data as nat,
            free: self.free_space as nat,
            pending: self.buffer@.subrange(self.unsent_data as int, self.free_space as int),
            fix_unix_read: self.fix_unix_read,
            progress: self.progress,
            awaiting: self.awaiting,
            prefix: self.flow@.prefix,
            received: self.flow@.received,
            swallowed: self.flow@.swallowed,
            delivered: self.flow@.delivered,
            discarded: self.flow@.discarded,
        }
    }
}

impl Copying {
    /// The states that a [`Copying`] can be in.
    pub closed spec fn wf(&self) -> bool {
        &&& self.buffer@.len() == BUFSIZE
        &&& self.unsent_data <= self.free_space <= BUFSIZE
        &&& self@.wf()
    }

    /// What is known of every well-formed [`Copying`].
    pub proof fn lemma_wf(&self)
        requires
            self.wf(),
        ensures
            self@.wf(),
    {
    }

    /// Create a direction that has both sides open. With `fix_unix_read`,
    /// the first byte that comes in must be the sentinel of a Unix Domain
    /// client and is not passed on. With `fix_unix_write`, such a sentinel is
    /// passed on before anything else.
    pub fn new(fix_unix_read: bool, fix_unix_write: bool) -> (c: Copying)
        ensures
            c.wf(),
            c@ == CopyingView::initial(fix_unix_read, fix_unix_write),
    {
        let mut free_space: usize = 0;
        let mut buffer: Vec<u8> = vec![0u8; BUFSIZE];
        if fix_unix_write {
            buffer.set(0, SENTINEL);
            free_space = 1;
        }
        let ghost prefix = if fix_unix_write {
            seq![SENTINEL]
        } else {
            Seq::empty()
        };
        let c = Copying {
            can_read: true,
            can_write: true,
            buffer,
            unsent_data: 0,
            free_space,
            fix_unix_read,
            progress: false,
            awaiting: Awaiting::Start,
            flow: Ghost(
                Flow {
                    prefix,
                    received: Seq::empty(),
                    swallowed: Seq::empty(),
                    delivered: Seq::empty(),
                    discarded: Seq::empty(),
                },
            ),
        };
        proof {
            assert(c@.pending =~= prefix);
            assert(c@.prefix + c@.received =~= c@.swallowed + c@.delivered + c@.discarded
                + c@.pending);
        }
        c
    }

    /// Whether both sides are closed.
    pub fn finished(&self) -> (b: bool)
        ensures
            b == self@.finished(),
    {
        !self.can_read && !self.can_write
    }

    /// The bytes in the buffer that have not been written yet.
    pub fn unsent(&self) -> (bytes: &[u8])
        requires
            self.wf(),
        ensures
            bytes@ == self@.pending,
    {
        slice_subrange(self.buffer.as_slice(), self.unsent_data, self.free_space)
    }

    /// How many bytes may be read now.
    pub fn read_space(&self) -> (n: usize)
        requires
            self.wf(),
        ensures
            n == self@.read_space(),
    {
        if self.can_read && self.can_write && self.free_space < BUFSIZE {
            BUFSIZE - self.free_space
        } else {
            0
        }
    }

    /// Whether `input` is what this direction is waiting for, and is
    /// possible.
    pub fn accepts(&self, input: &PumpInput) -> (b: bool)
        requires
            self.wf(),
        ensures
            b == self@.accepts(input@),
    {
        match input {
            PumpInput::Start => self.awaiting == Awaiting::Start,
            PumpInput::Wrote(r) => self.awaiting == Awaiting::Write && match r {
                Ok(n) => *n <= self.free_space - self.unsent_data,
                Err(_) => true,
            },
            PumpInput::Read(r) => self.awaiting == Awaiting::Read && match r {
                Ok(data) => data.len() <= self.read_space(),
                Err(_) => true,
            },
        }
    }

    /// Settle, then ask for a read if there is room for one.
    fn finish_writing(
        &mut self,
        direction: Direction,
        sink: &mut ConnectionSink,
        shutdown_write: bool,
    ) -> (request: Request)
        requires
            old(self).wf(),
            !old(self)@.sentinel_due(),
        ensures
            final(self).wf(),
            (Outcome {
                state: final(self)@,
                events: final(sink).pending(),
                result: Ok(request),
            }) == old(self)@.finish_writing(
                direction,
                old(sink).1,
                old(sink).pending(),
                shutdown_write,
            ),
            final(sink).1 == old(sink).1,
            *final(final(sink).0) == *final(old(sink).0),
    {
        let mut shutdown_write = shutdown_write;
        let mut shutdown_read = false;
        if self.unsent_data == self.free_space {
            self.unsent_data = 0;
            self.free_space = 0;
            if self.can_write && !self.can_read {
                // No data in the buffer and no option to get more
                self.can_write = false;
                shutdown_write = true;
            }
            if self.can_read && !self.can_write {
                sink.emit_shutdown_read(direction);
                self.can_read = false;
                shutdown_read = true;
            }
        }
        let next = if self.can_read && self.can_write && self.free_space < BUFSIZE {
            self.awaiting = Awaiting::Read;
            Next::Read { max: BUFSIZE - self.free_space }
        } else {
            self.awaiting = Awaiting::Start;
            Next::Finished { progress: self.progress }
        };
        proof {
            assert(self@.pending =~= old(self)@.pending);
        }
        Request { shutdown_write, shutdown_read, next }
    }

    /// Take the next step in moving bytes from the read side to the write
    /// side. A pass starts with [`PumpInput::Start`]; as long as the request
    /// that comes back asks for a write or a read, the caller does that and
    /// calls again with the outcome.
    ///
    /// In a pass, the sentinel of a Unix Domain client is checked and
    /// removed; unsent bytes are offered to the write side; an empty buffer
    /// is reset, and a direction of which one side is closed and which has
    /// nothing left to pass on closes the other side; if both sides are open
    /// and there is room, more bytes are read.
    pub fn handle_one(
        &mut self,
        direction: Direction,
        sink: &mut ConnectionSink,
        input: PumpInput,
    ) -> (r: Result<Request, Error>)
        requires
            old(self).wf(),
            old(self)@.accepts(input@),
        ensures
            final(self).wf(),
            final(self)@ == old(self)@.step(direction, old(sink).1, input@).state,
            final(sink).pending() == old(sink).pending() + old(self)@.step(
                direction,
                old(sink).1,
                input@,
            ).events,
            final(sink).1 == old(sink).1,
            *final(final(sink).0) == *final(old(sink).0),
            match r {
                Ok(request) => old(self)@.step(direction, old(sink).1, input@).result == Ok::<
                    Request,
                    ErrorView,
                >(request),
                Err(e) => old(self)@.step(direction, old(sink).1, input@).result == Err::<
                    Request,
                    ErrorView,
                >(e@),
            },
    {
        let ghost before = self@;
        let ghost events = sink.pending();
        proof {
            assert(events + Seq::<EventView>::empty() =~= events);
        }
        match input {
            PumpInput::Start => {
                if self.fix_unix_read && self.free_space > 0 {
                    if self.buffer[0] == SENTINEL {
                        // skip it
                        self.unsent_data = 1;
                        self.fix_unix_read = false;
                        proof {
                            self.flow@ = Flow { swallowed: before.pending.take(1), ..self.flow@ };
                        }
                    } else {
                        let mut message: Vec<u8> = Vec::new();
                        push_str(&mut message, "client did not start with a '0' (0x30) byte");
                        assert(message@ =~= "client did not start with a '0' (0x30) byte".spec_bytes());
                        return Err(Error::Other(message));
                    }
                }
                self.progress = false;
                proof {
                    if before.sentinel_due() {
                        assert(self@.pending =~= before.pending.skip(1));
                        assert(before.pending =~= before.pending.take(1) + before.pending.skip(1));
                    } else {
                        assert(self@.pending =~= before.pending);
                    }
                    assert(self@.prefix + self@.received =~= self@.swallowed + self@.delivered
                        + self@.discarded + self@.pending);
                }
                if self.unsent_data < self.free_space {
                    self.awaiting = Awaiting::Write;
                    Ok(Request { shutdown_write: false, shutdown_read: false, next: Next::Write })
                } else {
                    Ok(self.finish_writing(direction, sink, false))
                }
            },
            PumpInput::Wrote(Ok(n)) => {
                if n > 0 {
                    self.progress = true;
                    self.unsent_data = self.unsent_data + n;
                    self.awaiting = Awaiting::Start;
                    proof {
                        self.flow@ = Flow {
                            delivered: before.delivered + before.pending.take(n as int),
                            ..self.flow@
                        };
                        assert(self@.pending =~= before.pending.skip(n as int));
                        assert(before.pending =~= before.pending.take(n as int)
                            + before.pending.skip(n as int));
                        assert(self@.prefix + self@.received =~= self@.swallowed + self@.delivered
                            + self@.discarded + self@.pending);
                    }
                    Ok(self.finish_writing(direction, sink, false))
                } else {
                    // the write side does not take data any longer
                    self.progress = true;
                    let discard = self.free_space - self.unsent_data;
                    sink.emit_shutdown_write(direction, discard);
                    self.unsent_data = self.free_space;
                    self.can_write = false;
                    self.awaiting = Awaiting::Start;
                    proof {
                        self.flow@ = Flow {
                            discarded: before.discarded + before.pending,
                            ..self.flow@
                        };
                        assert(self@.pending =~= Seq::<u8>::empty());
                        assert(self@.prefix + self@.received =~= self@.swallowed + self@.delivered
                            + self@.discarded + self@.pending);
                        assert(sink.pending() =~= events + seq![
                            EventView::ShutdownWrite { id: sink.1, direction, discard },
                        ]);
                    }
                    Ok(self.finish_writing(direction, sink, true))
                }
            },
            PumpInput::Wrote(Err(err)) => {
                if err.would_block() {
                    self.awaiting = Awaiting::Start;
                    proof {
                        assert(self@.pending =~= before.pending);
                    }
                    Ok(self.finish_writing(direction, sink, false))
                } else {
                    Err(Error::Forward { doing: "writing", side: direction.receiver(), err })
                }
            },
            PumpInput::Read(Ok(data)) => {
                let n = data.len();
                if n > 0 {
                    sink.emit_data(direction, data);
                    let mut i: usize = 0;
                    while i < n
                        invariant
                            i <= n,
                            n == data@.len(),
                            self.free_space + n <= BUFSIZE,
                            self.buffer@.len() == BUFSIZE,
                            self.free_space == old(self).free_space,
                            self.unsent_data == old(self).unsent_data,
                            self.unsent_data <= self.free_space,
                            self.buffer@.take(self.free_space as int) == old(self).buffer@.take(
                                self.free_space as int,
                            ),
                            self.buffer@.subrange(self.free_space as int, self.free_space + i)
                                == data@.take(i as int),
                            self.can_read == old(self).can_read,
                            self.can_write == old(self).can_write,
                            self.fix_unix_read == old(self).fix_unix_read,
                            self.progress == old(self).progress,
                            self.awaiting == old(self).awaiting,
                            self.flow == old(self).flow,
                        decreases n - i,
                    {
                        let ghost prior = self.buffer@;
                        self.buffer.set(self.free_space + i, data[i]);
                        proof {
                            assert(self.buffer@.take(self.free_space as int) =~= prior.take(
                                self.free_space as int,
                            ));
                            assert(self.buffer@.subrange(
                                self.free_space as int,
                                self.free_space + i + 1,
                            ) =~= prior.subrange(self.free_space as int, self.free_space + i).push(
                                data@[i as int],
                            ));
                            assert(data@.take(i + 1) =~= data@.take(i as int).push(data@[i as int]));
                        }
                        i = i + 1;
                    }
                    self.progress = true;
                    self.free_space = self.free_space + n;
                    self.awaiting = Awaiting::Start;
                    proof {
                        self.flow@ = Flow { received: before.received + data@, ..self.flow@ };
                        assert(data@.take(n as int) =~= data@);
                        assert(self@.pending =~= before.pending + data@) by {
                            assert(before.pending =~= self.buffer@.take(
                                old(self).free_space as int,
                            ).subrange(old(self).unsent_data as int, old(self).free_space as int));
                        }
                        assert(self@.prefix + self@.received =~= (before.prefix + before.received)
                            + data@);
                        assert(self@.swallowed + self@.delivered + self@.discarded + self@.pending
                            =~= (before.swallowed + before.delivered + before.discarded
                            + before.pending) + data@);
                        assert(sink.pending() =~= events + seq![
                            EventView::Data { id: sink.1, direction, data: data@ },
                        ]);
                    }
                    Ok(
                        Request {
                            shutdown_write: false,
                            shutdown_read: false,
                            next: Next::Finished { progress: true },
                        },
                    )
                } else {
                    // the read side has no more to give
                    self.progress = true;
                    sink.emit_shutdown_read(direction);
                    self.can_read = false;
                    self.awaiting = Awaiting::Start;
                    proof {
                        assert(self@.pending =~= before.pending);
                        assert(sink.pending() =~= events + seq![
                            EventView::ShutdownRead { id: sink.1, direction },
                        ]);
                    }
                    Ok(
                        Request {
                            shutdown_write: false,
                            shutdown_read: true,
                            next: Next::Finished { progress: true },
                        },
                    )
                }
            },
            PumpInput::Read(Err(err)) => {
                if err.would_block() {
                    self.awaiting = Awaiting::Start;
                    proof {
                        assert(self@.pending =~= before.pending);
                    }
                    Ok(
                        Request {
                            shutdown_write: false,
                            shutdown_read: false,
                            next: Next::Finished { progress: self.progress },
                        },
                    )
                } else {
                    Err(Error::Forward { doing: "reading", side: direction.sender(), err })
                }
            },
        }
    }
}

impl CopyingView {
    /// The bytes that the write side takes in a step.
    pub open spec fn taken_by(self, input: PumpInputView) -> Seq<u8> {
        match input {
            PumpInputView::Wrote(Ok(n)) => self.pending.take(n as int),
            _ => Seq::empty(),
        }
    }

    /// Every step keeps the state well-formed. The bytes of the `Data`
    /// events that it emits are exactly what comes in, and what the write
    /// side takes is exactly what goes out, in the order in which it came
    /// in. So the bytes of all `Data` events of a direction, after the
    /// sentinel if one was removed, are the bytes delivered to the other
    /// socket, followed by those discarded or still in the buffer.
    pub proof fn lemma_step_conserves(self, direction: Direction, id: ConnectionId, input: PumpInputView)
        requires
            self.wf(),
            self.accepts(input),
        ensures
            self.step(direction, id, input).state.wf(),
            self.step(direction, id, input).state.received == self.received + crate::event::data_of(
                self.step(direction, id, input).events,
                id,
                direction,
            ),
            self.step(direction, id, input).state.delivered == self.delivered + self.taken_by(input),
            self.step(direction, id, input).state.prefix == self.prefix,
            self.step(direction, id, input).state.conserved(),
    {
        reveal_with_fuel(crate::event::data_of, 3);
        let out = self.step(direction, id, input);
        let none = Seq::<EventView>::empty();
        assert(self.received + Seq::<u8>::empty() =~= self.received);
        assert(self.delivered + Seq::<u8>::empty() =~= self.delivered);
        match input {
            PumpInputView::Start => {
                if self.sentinel_due() && self.pending[0] == SENTINEL {
                    assert(self.pending =~= self.pending.take(1) + self.pending.skip(1));
                    assert(self.swallowed + self.delivered + self.discarded + self.pending
                        =~= self.pending);
                    assert(self.pending.take(1) + self.delivered + self.discarded
                        + self.pending.skip(1) =~= self.pending);
                }
                if out.events.len() > 0 {
                    assert(out.events.drop_last() =~= none);
                }
                assert(out.state.conserved());
                assert(out.state.wf());
            },
            PumpInputView::Wrote(Ok(n)) => {
                let taken = self.pending.take(n as int);
                let rest = self.pending.skip(n as int);
                assert(self.pending =~= taken + rest);
                assert(self.discarded =~= Seq::<u8>::empty());
                if n > 0 {
                    assert(self.swallowed + (self.delivered + taken) + self.discarded + rest
                        =~= self.swallowed + self.delivered + self.discarded + self.pending);
                } else {
                    assert(self.swallowed + self.delivered + (self.discarded + self.pending)
                        + Seq::<u8>::empty() =~= self.swallowed + self.delivered + self.discarded
                        + self.pending);
                }
                assert(out.state.conserved());
                assert(out.state.wf());
                if n == 0 {
                    assert(self.pending.take(0) =~= Seq::<u8>::empty());
                    let first = seq![
                        EventView::ShutdownWrite {
                            id,
                            direction,
                            discard: (self.free - self.unsent) as usize,
                        },
                    ];
                    assert(first.drop_last() =~= none);
                    if out.events.len() > 1 {
                        assert(out.events.drop_last() =~= first);
                    }
                } else if out.events.len() > 0 {
                    assert(out.events.drop_last() =~= none);
                }
            },
            PumpInputView::Wrote(Err(err)) => {
                if out.events.len() > 0 {
                    assert(out.events.drop_last() =~= none);
                }
                assert(out.state.conserved());
                assert(out.state.wf());
            },
            PumpInputView::Read(Ok(data)) => {
                assert(out.events.drop_last() =~= none);
                assert(Seq::<u8>::empty() + data =~= data);
                assert((self.prefix + self.received) + data =~= self.prefix + (self.received + data));
                assert((self.swallowed + self.delivered + self.discarded + self.pending) + data
                    =~= self.swallowed + self.delivered + self.discarded + (self.pending + data));
                assert(out.state.conserved());
                assert(out.state.wf());
            },
            PumpInputView::Read(Err(err)) => {
                assert(out.state.conserved());
                assert(out.state.wf());
            },
        }
    }

    /// When the write side turns out to be closed, the one event emitted
    /// for it is a `ShutdownWrite` whose `discard` is the number of bytes
    /// between the start of the unsent data and the start of the free space
    /// at that moment, and exactly those bytes are discarded.
    pub proof fn lemma_discard_on_closed_write(self, direction: Direction, id: ConnectionId)
        requires
            self.wf(),
            self.awaiting == Awaiting::Write,
        ensures
            self.step(direction, id, PumpInputView::Wrote(Ok(0))).events[0] == (
            EventView::ShutdownWrite { id, direction, discard: (self.free - self.unsent) as usize }),
            self.free - self.unsent == self.pending.len(),
            self.step(direction, id, PumpInputView::Wrote(Ok(0))).state.discarded == self.discarded
                + self.pending,
            self.step(direction, id, PumpInputView::Wrote(Ok(0))).state.pending.len() == 0,
            !self.step(direction, id, PumpInputView::Wrote(Ok(0))).state.can_write,
    {
    }

    /// Once a direction is finished, its buffer is empty: every byte that
    /// came in has been delivered, unless it was the sentinel or was
    /// discarded when the write side closed.
    pub proof fn lemma_finished(self)
        requires
            self.wf(),
            self.finished(),
        ensures
            self.pending.len() == 0,
            self.prefix + self.received == self.swallowed + self.delivered + self.discarded,
    {
        assert(self.swallowed + self.delivered + self.discarded + self.pending =~= self.swallowed
            + self.delivered + self.discarded);
    }
}

} // verus!
