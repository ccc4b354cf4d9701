//! Forwarding one connection.
//!
//! A [`Forwarder`] never touches a socket or the poller. Each call of
//! [`Forwarder::handle_event`] takes one step and says what is to be done
//! next; the caller does it and comes back with the outcome.

use crate::copying::{Awaiting, Copying, CopyingView, Next, PumpInput, PumpInputView};
use crate::error::{Error, ErrorView, IoError, IoErrorKind, IoErrorView};
use crate::event::{ConnectionId, ConnectionSink, Direction, EventView};
use crate::address::{addr_views, MonetAddr};
use crate::network::{Addr, AddrView};
use crate::registered::{
    readable, writable, Registered, RegisteredView, Registration, READABLE, WRITABLE,
};
use vstd::prelude::*;
use vstd::string::StringSliceAdditionalSpecFns;

verus! {

/// The two sockets of a forwarded connection.
#[derive(Debug, Clone, Copy, PartialEq, Eq, Structural)]
pub enum Side {
    Client,
    Server,
}

/// The socket that a direction writes to.
pub open spec fn writes_to(direction: Direction) -> Side {
    match direction {
        Direction::Upstream => Side::Server,
        Direction::Downstream => Side::Client,
    }
}

/// The socket that a direction reads from.
pub open spec fn reads_from(direction: Direction) -> Side {
    match direction {
        Direction::Upstream => Side::Client,
        Direction::Downstream => Side::Server,
    }
}

/// What the caller of [`Forwarder::handle_event`] is to do next.
#[derive(Debug, Clone, Copy, PartialEq, Eq, Structural)]
pub enum Todo {
    /// Offer the unsent bytes of `direction` to the socket of `side`, and
    /// come back with [`Input::Pump`] of what was written.
    Write { side: Side, direction: Direction },
    /// Read up to `max` bytes from the socket of `side`, and come back with
    /// [`Input::Pump`] of what was read.
    Read { side: Side, direction: Direction, max: usize },
    /// Do with the poller what [`Forwarder::registration`] says for `side`,
    /// and come back with [`Input::Registered`].
    Register { side: Side },
    /// Start to connect to [`Forwarder::candidate`], and come back with
    /// [`Input::Connected`].
    Connect,
    /// Ask the server socket whether it is connected, and come back with
    /// [`Input::Established`].
    CheckEstablished,
    /// Switch off the delaying of small packets on the socket of `side`,
    /// and come back with [`Input::Nodelay`].
    SetNodelay { side: Side },
    /// Come back at once, with [`Input::Go`].
    Again,
    /// Keep the connection, and come back with [`Input::Go`] when the poller
    /// reports one of its sockets ready.
    Wait,
    /// The connection has come to its end.
    Finished,
}

/// What [`Forwarder::handle_event`] asks of its caller: first to shut down
/// what it says, then to go on as `next` says.
#[derive(Debug, Clone, Copy, PartialEq, Eq, Structural)]
pub struct Step {
    /// Shut down the write half of this socket.
    pub shutdown_write: Option<Side>,
    /// Shut down the read half of this socket.
    pub shutdown_read: Option<Side>,
    /// Close the server socket: the attempt to connect has failed.
    pub drop_server: bool,
    pub next: Todo,
}

/// A step that asks for nothing but `next`.
pub open spec fn just(next: Todo) -> Step {
    Step { shutdown_write: None, shutdown_read: None, drop_server: false, next }
}

/// What came of what [`Forwarder::handle_event`] asked for.
#[derive(Debug)]
pub enum Input<'a> {
    /// Nothing was asked for, or the poller has reported a socket ready.
    Go,
    /// A write or a read was asked for.
    Pump(PumpInput<'a>),
    /// A change with the poller was asked for.
    Registered(Result<(), IoError>),
    /// A connection was to be started.
    Connected(Result<(), IoError>),
    /// The server socket was asked whether it is connected: it is, to this
    /// peer, or it is not yet, or the attempt has failed.
    Established(Result<Option<Addr>, IoError>),
    /// The delaying of small packets was to be switched off.
    Nodelay(Result<(), IoError>),
}

/// What an [`Input`] stands for.
pub enum InputView {
    Go,
    Pump(PumpInputView),
    Registered(Result<(), IoErrorView>),
    Connected(Result<(), IoErrorView>),
    Established(Result<Option<AddrView>, IoErrorView>),
    Nodelay(Result<(), IoErrorView>),
}

impl<'a> View for Input<'a> {
    type V = InputView;

    open spec fn view(&self) -> InputView {
        match *self {
            Input::Go => InputView::Go,
            Input::Pump(p) => InputView::Pump(p@),
            Input::Registered(Ok(())) => InputView::Registered(Ok(())),
            Input::Registered(Err(e)) => InputView::Registered(Err(e@)),
            Input::Connected(Ok(())) => InputView::Connected(Ok(())),
            Input::Connected(Err(e)) => InputView::Connected(Err(e@)),
            Input::Established(Ok(Some(peer))) => InputView::Established(Ok(Some(peer@))),
            Input::Established(Ok(None)) => InputView::Established(Ok(None)),
            Input::Established(Err(e)) => InputView::Established(Err(e@)),
            Input::Nodelay(Ok(())) => InputView::Nodelay(Ok(())),
            Input::Nodelay(Err(e)) => InputView::Nodelay(Err(e@)),
        }
    }
}

/// What a step comes to, as the contracts see it: the state afterwards,
/// the events emitted, and what is returned.
pub struct Stepped<S> {
    pub state: S,
    pub events: Seq<EventView>,
    pub result: Result<Step, ErrorView>,
}

/// The name of a side.
pub open spec fn side_name(side: Side) -> &'static str {
    match side {
        Side::Client => "client",
        Side::Server => "server",
    }
}

/// Where a running connection is in its work.
#[derive(Debug, Clone, Copy, PartialEq, Eq, Structural)]
pub enum RunPhase {
    /// Waiting for the poller to report a socket ready.
    Idle,
    /// In a pass over the two directions. `direction` is at work; `progress`
    /// tells whether anything has changed in the pass so far.
    Pumping { direction: Direction, progress: bool },
    /// The registration of `side` with the poller is being brought up to
    /// date.
    Registering { side: Side },
}

/// A connection that is being forwarded, as the contracts see it.
pub struct RunningView {
    pub client: RegisteredView,
    pub server: RegisteredView,
    pub upstream: CopyingView,
    pub downstream: CopyingView,
    pub phase: RunPhase,
}

impl RunningView {
    pub open spec fn wf(self) -> bool {
        &&& self.upstream.wf()
        &&& self.downstream.wf()
        &&& match self.phase {
            RunPhase::Pumping { direction: Direction::Upstream, .. } => self.downstream.awaiting
                == Awaiting::Start,
            RunPhase::Pumping { direction: Direction::Downstream, .. } => self.upstream.awaiting
                == Awaiting::Start,
            _ => self.upstream.awaiting == Awaiting::Start && self.downstream.awaiting
                == Awaiting::Start,
        }
    }

    /// A connection that has just been established.
    pub open spec fn initial(
        client: RegisteredView,
        server: RegisteredView,
        client_is_unix: bool,
        server_is_unix: bool,
    ) -> RunningView {
        RunningView {
            client,
            server,
            upstream: CopyingView::initial(client_is_unix, server_is_unix),
            downstream: CopyingView::initial(false, false),
            phase: RunPhase::Idle,
        }
    }

    pub open spec fn copy(self, direction: Direction) -> CopyingView {
        match direction {
            Direction::Upstream => self.upstream,
            Direction::Downstream => self.downstream,
        }
    }

    pub open spec fn with_copy(self, direction: Direction, copy: CopyingView) -> RunningView {
        match direction {
            Direction::Upstream => RunningView { upstream: copy, ..self },
            Direction::Downstream => RunningView { downstream: copy, ..self },
        }
    }

    pub open spec fn registered(self, side: Side) -> RegisteredView {
        match side {
            Side::Client => self.client,
            Side::Server => self.server,
        }
    }

    pub open spec fn with_registered(self, side: Side, registered: RegisteredView) -> RunningView {
        match side {
            Side::Client => RunningView { client: registered, ..self },
            Side::Server => RunningView { server: registered, ..self },
        }
    }

    /// Whether `input` is what this state is waiting for.
    pub open spec fn accepts(self, input: InputView) -> bool {
        match (self.phase, input) {
            (RunPhase::Idle, InputView::Go) => true,
            (RunPhase::Pumping { direction, .. }, InputView::Go) => self.copy(direction).awaiting
                == Awaiting::Start,
            (RunPhase::Pumping { direction, .. }, InputView::Pump(p)) => !(p is Start)
                && self.copy(direction).accepts(p),
            (RunPhase::Registering { .. }, InputView::Registered(_)) => true,
            _ => false,
        }
    }

    /// A socket that would have had to wait needs to be told when it can go
    /// on: the one written to when it is writable, the one read from when it
    /// is readable.
    pub open spec fn noting(self, direction: Direction, input: PumpInputView) -> RunningView {
        match input {
            PumpInputView::Wrote(Err(e)) => if e.kind == IoErrorKind::WouldBlock {
                self.with_registered(
                    writes_to(direction),
                    self.registered(writes_to(direction)).needing(set![WRITABLE]),
                )
            } else {
                self
            },
            PumpInputView::Read(Err(e)) => if e.kind == IoErrorKind::WouldBlock {
                self.with_registered(
                    reads_from(direction),
                    self.registered(reads_from(direction)).needing(set![READABLE]),
                )
            } else {
                self
            },
            _ => self,
        }
    }

    /// One step of one direction, and what follows from it for the pass.
    pub open spec fn pump(
        self,
        id: ConnectionId,
        direction: Direction,
        progress: bool,
        input: PumpInputView,
    ) -> Stepped<RunningView> {
        let out = self.copy(direction).step(direction, id, input);
        match out.result {
            Err(e) => Stepped { state: self, events: out.events, result: Err(e) },
            Ok(request) => {
                let state = self.with_copy(direction, out.state);
                let shutdown_write = if request.shutdown_write {
                    Some(writes_to(direction))
                } else {
                    None
                };
                let shutdown_read = if request.shutdown_read {
                    Some(reads_from(direction))
                } else {
                    None
                };
                let (phase, next) = match request.next {
                    Next::Write => (
                        RunPhase::Pumping { direction, progress },
                        Todo::Write { side: writes_to(direction), direction },
                    ),
                    Next::Read { max } => (
                        RunPhase::Pumping { direction, progress },
                        Todo::Read { side: reads_from(direction), direction, max },
                    ),
                    Next::Finished { progress: changed } => if direction
                        == Direction::Downstream {
                        (
                            RunPhase::Pumping {
                                direction: Direction::Upstream,
                                progress: progress || changed,
                            },
                            Todo::Again,
                        )
                    } else if progress || changed {
                        (RunPhase::Idle, Todo::Again)
                    } else {
                        (
                            RunPhase::Registering { side: Side::Client },
                            Todo::Register { side: Side::Client },
                        )
                    },
                };
                Stepped {
                    state: RunningView { phase, ..state },
                    events: out.events,
                    result: Ok(Step { shutdown_write, shutdown_read, drop_server: false, next }),
                }
            },
        }
    }

    /// One step of a connection that is being forwarded.
    ///
    /// A pass takes the downstream direction and then the upstream one
    /// through their steps. Passes follow each other as long as anything
    /// changes. Then the registrations of the two sockets are brought up to
    /// date, and the connection waits, or is finished if both directions
    /// are.
    pub open spec fn step(self, id: ConnectionId, input: InputView) -> Stepped<RunningView> {
        match (self.phase, input) {
            (RunPhase::Idle, InputView::Go) => RunningView {
                client: self.client.cleared(),
                server: self.server.cleared(),
                ..self
            }.pump(id, Direction::Downstream, false, PumpInputView::Start),
            (RunPhase::Pumping { direction, progress }, InputView::Go) => self.pump(
                id,
                direction,
                progress,
                PumpInputView::Start,
            ),
            (RunPhase::Pumping { direction, progress }, InputView::Pump(p)) => {
                let out = self.pump(id, direction, progress, p);
                if out.result is Ok {
                    Stepped { state: out.state.noting(direction, p), ..out }
                } else {
                    out
                }
            },
            (RunPhase::Registering { side }, InputView::Registered(Ok(()))) => {
                let state = self.with_registered(side, self.registered(side).done());
                if side == Side::Client {
                    Stepped {
                        state: RunningView {
                            phase: RunPhase::Registering { side: Side::Server },
                            ..state
                        },
                        events: Seq::empty(),
                        result: Ok(just(Todo::Register { side: Side::Server })),
                    }
                } else {
                    Stepped {
                        state: RunningView { phase: RunPhase::Idle, ..state },
                        events: Seq::empty(),
                        result: Ok(
                            just(
                                if self.upstream.finished() && self.downstream.finished() {
                                    Todo::Finished
                                } else {
                                    Todo::Wait
                                },
                            ),
                        ),
                    }
                }
            },
            (RunPhase::Registering { side }, InputView::Registered(Err(err))) => Stepped {
                state: self,
                events: Seq::empty(),
                result: Err(
                    ErrorView::Forward {
                        doing: "registering".spec_bytes(),
                        side: side_name(side).spec_bytes(),
                        err,
                    },
                ),
            },
            _ => Stepped { state: self, events: Seq::empty(), result: Ok(just(Todo::Wait)) },
        }
    }
}

/// A connection that is being forwarded: its two sockets as the poller
/// knows them, and its two directions.
pub struct Running {
    client: Registered,
    server: Registered,
    upstream: Copying,
    downstream: Copying,
    phase: RunPhase,
}

impl View for Running {
    type V = RunningView;

    closed spec fn view(&self) -> RunningView {
        RunningView {
            client: self.client@,
            server: self.server@,
            upstream: self.upstream@,
            downstream: self.downstream@,
            phase: self.phase,
        }
    }
}

impl Side {
    /// The name of the side.
    pub fn name(&self) -> (s: &'static str)
        ensures
            s == side_name(*self),
    {
        match self {
            Side::Client => "client",
            Side::Server => "server",
        }
    }
}

impl Running {
    pub closed spec fn wf(&self) -> bool {
        &&& self.upstream.wf()
        &&& self.downstream.wf()
        &&& self@.wf()
    }

    /// Start forwarding between two sockets that are connected.
    pub fn from(client: Registered, server: Registered, client_is_unix: bool, server_is_unix: bool) -> (r:
        Running)
        ensures
            r.wf(),
            r@ == RunningView::initial(client@, server@, client_is_unix, server_is_unix),
    {
        let upstream = Copying::new(client_is_unix, server_is_unix);
        let downstream = Copying::new(false, false);
        proof {
            upstream.lemma_wf();
            downstream.lemma_wf();
        }
        Running { client, server, upstream, downstream, phase: RunPhase::Idle }
    }

    /// Whether `input` is what this connection is waiting for.
    pub fn accepts(&self, input: &Input) -> (b: bool)
        requires
            self.wf(),
        ensures
            b == self@.accepts(input@),
    {
        match (self.phase, input) {
            (RunPhase::Idle, Input::Go) => true,
            (RunPhase::Pumping { direction, .. }, Input::Go) => match direction {
                Direction::Upstream => self.upstream.accepts(&PumpInput::Start),
                Direction::Downstream => self.downstream.accepts(&PumpInput::Start),
            },
            (RunPhase::Pumping { direction, .. }, Input::Pump(p)) => match p {
                PumpInput::Start => false,
                _ => match direction {
                    Direction::Upstream => self.upstream.accepts(p),
                    Direction::Downstream => self.downstream.accepts(p),
                },
            },
            (RunPhase::Registering { .. }, Input::Registered(_)) => true,
            _ => false,
        }
    }

    /// The bytes of a direction that have not been written yet.
    pub fn unsent(&self, direction: Direction) -> (bytes: &[u8])
        requires
            self.wf(),
        ensures
            bytes@ == self@.copy(direction).pending,
    {
        match direction {
            Direction::Upstream => self.upstream.unsent(),
            Direction::Downstream => self.downstream.unsent(),
        }
    }

    /// What is to be done with the poller for the socket of `side`.
    pub fn registration(&self, side: Side) -> (change: Registration)
        ensures
            change@ == self@.registered(side).planned(),
    {
        match side {
            Side::Client => self.client.update_registration(),
            Side::Server => self.server.update_registration(),
        }
    }

    /// Forget what the sockets need, and say what is to be done with the
    /// poller to take them out of it: first for the client, then for the
    /// server.
    pub fn deregister(&mut self) -> (changes: (Registration, Registration))
        ensures
            changes.0@ == old(self)@.client.cleared().planned(),
            changes.1@ == old(self)@.server.cleared().planned(),
    {
        let client = self.client.deregister();
        let server = self.server.deregister();
        (client, server)
    }

    /// Take one step of one direction.
    fn pump(
        &mut self,
        sink: &mut ConnectionSink,
        direction: Direction,
        progress: bool,
        input: PumpInput,
    ) -> (r: Result<Step, Error>)
        requires
            old(self).upstream.wf(),
            old(self).downstream.wf(),
            old(self)@.upstream.wf(),
            old(self)@.downstream.wf(),
            old(self)@.copy(direction).accepts(input@),
            old(self)@.copy(direction.opposite_of()).awaiting == Awaiting::Start,
        ensures
            final(self).upstream.wf(),
            final(self).downstream.wf(),
            r is Ok ==> final(self).wf(),
            final(self)@ == old(self)@.pump(old(sink).1, direction, progress, input@).state,
            final(sink).pending() == old(sink).pending() + old(self)@.pump(
                old(sink).1,
                direction,
                progress,
                input@,
            ).events,
            final(sink).1 == old(sink).1,
            *final(final(sink).0) == *final(old(sink).0),
            match r {
                Ok(step) => old(self)@.pump(old(sink).1, direction, progress, input@).result == Ok::<
                    Step,
                    ErrorView,
                >(step),
                Err(e) => old(self)@.pump(old(sink).1, direction, progress, input@).result == Err::<
                    Step,
                    ErrorView,
                >(e@),
            },
    {
        let ghost before = self@;
        proof {
            before.copy(direction).lemma_step_conserves(direction, sink.1, input@);
        }
        let handled = match direction {
            Direction::Upstream => self.upstream.handle_one(direction, sink, input),
            Direction::Downstream => self.downstream.handle_one(direction, sink, input),
        };
        let request = match handled {
            Err(e) => {
                return Err(e);
            },
            Ok(request) => request,
        };
        let wr = match direction {
            Direction::Upstream => Side::Server,
            Direction::Downstream => Side::Client,
        };
        let rd = match direction {
            Direction::Upstream => Side::Client,
            Direction::Downstream => Side::Server,
        };
        let shutdown_write = if request.shutdown_write {
            Some(wr)
        } else {
            None
        };
        let shutdown_read = if request.shutdown_read {
            Some(rd)
        } else {
            None
        };
        let next = match request.next {
            Next::Write => {
                self.phase = RunPhase::Pumping { direction, progress };
                Todo::Write { side: wr, direction }
            },
            Next::Read { max } => {
                self.phase = RunPhase::Pumping { direction, progress };
                Todo::Read { side: rd, direction, max }
            },
            Next::Finished { progress: changed } => {
                if direction == Direction::Downstream {
                    self.phase = RunPhase::Pumping {
                        direction: Direction::Upstream,
                        progress: progress || changed,
                    };
                    Todo::Again
                } else if progress || changed {
                    self.phase = RunPhase::Idle;
                    Todo::Again
                } else {
                    self.phase = RunPhase::Registering { side: Side::Client };
                    Todo::Register { side: Side::Client }
                }
            },
        };
        Ok(Step { shutdown_write, shutdown_read, drop_server: false, next })
    }

    /// Take one step. See [`RunningView::step`] for what the steps are.
    pub fn process(&mut self, sink: &mut ConnectionSink, input: Input) -> (r: Result<Step, Error>)
        requires
            old(self).wf(),
            old(self)@.accepts(input@),
        ensures
            final(self).wf(),
            final(self)@ == old(self)@.step(old(sink).1, input@).state,
            final(sink).pending() == old(sink).pending() + old(self)@.step(
                old(sink).1,
                input@,
            ).events,
            final(sink).1 == old(sink).1,
            *final(final(sink).0) == *final(old(sink).0),
            match r {
                Ok(step) => old(self)@.step(old(sink).1, input@).result == Ok::<Step, ErrorView>(
                    step,
                ),
                Err(e) => old(self)@.step(old(sink).1, input@).result == Err::<Step, ErrorView>(e@),
            },
    {
        proof {
            assert(sink.pending() + Seq::<EventView>::empty() =~= sink.pending());
        }
        match input {
            Input::Go => match self.phase {
                RunPhase::Pumping { direction, progress } => self.pump(
                    sink,
                    direction,
                    progress,
                    PumpInput::Start,
                ),
                _ => {
                    self.client.clear();
                    self.server.clear();
                    self.pump(sink, Direction::Downstream, false, PumpInput::Start)
                },
            },
            Input::Pump(p) => match self.phase {
                RunPhase::Pumping { direction, progress } => {
                    let would_block = match &p {
                        PumpInput::Wrote(Err(e)) => e.would_block(),
                        PumpInput::Read(Err(e)) => e.would_block(),
                        _ => false,
                    };
                    let writing = match &p {
                        PumpInput::Wrote(_) => true,
                        _ => false,
                    };
                    let ghost seen = p@;
                    let r = self.pump(sink, direction, progress, p);
                    if r.is_ok() && would_block {
                        let side = if writing {
                            match direction {
                                Direction::Upstream => Side::Server,
                                Direction::Downstream => Side::Client,
                            }
                        } else {
                            match direction {
                                Direction::Upstream => Side::Client,
                                Direction::Downstream => Side::Server,
                            }
                        };
                        let interest = if writing {
                            writable()
                        } else {
                            readable()
                        };
                        match side {
                            Side::Client => self.client.need(interest),
                            Side::Server => self.server.need(interest),
                        }
                    }
                    r
                },
                _ => Ok(
                    Step {
                        shutdown_write: None,
                        shutdown_read: None,
                        drop_server: false,
                        next: Todo::Wait,
                    },
                ),
            },
            Input::Registered(outcome) => match self.phase {
                RunPhase::Registering { side } => match outcome {
                    Ok(()) => {
                        match side {
                            Side::Client => {
                                self.client.registration_done();
                                self.phase = RunPhase::Registering { side: Side::Server };
                                Ok(
                                    Step {
                                        shutdown_write: None,
                                        shutdown_read: None,
                                        drop_server: false,
                                        next: Todo::Register { side: Side::Server },
                                    },
                                )
                            },
                            Side::Server => {
                                self.server.registration_done();
                                self.phase = RunPhase::Idle;
                                let next = if self.upstream.finished()
                                    && self.downstream.finished() {
                                    Todo::Finished
                                } else {
                                    Todo::Wait
                                };
                                Ok(
                                    Step {
                                        shutdown_write: None,
                                        shutdown_read: None,
                                        drop_server: false,
                                        next,
                                    },
                                )
                            },
                        }
                    },
                    Err(err) => Err(Error::Forward { doing: "registering", side: side.name(), err }),
                },
                _ => Ok(
                    Step {
                        shutdown_write: None,
                        shutdown_read: None,
                        drop_server: false,
                        next: Todo::Wait,
                    },
                ),
            },
            _ => Ok(
                Step {
                    shutdown_write: None,
                    shutdown_read: None,
                    drop_server: false,
                    next: Todo::Wait,
                },
            ),
        }
    }
}

/// Whether a connection that was started without waiting for it has been
/// made. `so_error` is what the socket gave when it was asked for its
/// pending error, `peer` what it gave when it was asked for its peer.
///
/// An error of either kind from the first question means that the attempt
/// has failed. Else a peer means that the connection has been made; no peer
/// because the socket is not connected, or would have to wait, means that
/// the connection is still being made; any other failure means that the
/// attempt has failed.
pub fn established(so_error: Result<Option<IoError>, IoError>, peer: Result<Addr, IoError>) -> (r:
    Result<Option<Addr>, IoError>)
    ensures
        match so_error {
            Err(e) => r == Err::<Option<Addr>, IoError>(e),
            Ok(Some(e)) => r == Err::<Option<Addr>, IoError>(e),
            Ok(None) => match peer {
                Ok(a) => r == Ok::<Option<Addr>, IoError>(Some(a)),
                Err(e) => if e.kind == IoErrorKind::WouldBlock || e.kind
                    == IoErrorKind::NotConnected {
                    r == Ok::<Option<Addr>, IoError>(None)
                } else {
                    r == Err::<Option<Addr>, IoError>(e)
                },
            },
        },
{
    match so_error {
        Err(e) => Err(e),
        Ok(Some(e)) => Err(e),
        Ok(None) => match peer {
            Ok(addr) => Ok(Some(addr)),
            Err(e) => match e.kind {
                IoErrorKind::WouldBlock | IoErrorKind::NotConnected => Ok(None),
                _ => Err(e),
            },
        },
    }
}

/// Where a connection that is being set up is in its work.
#[derive(Debug, Clone, Copy, PartialEq, Eq, Structural)]
pub enum ConnectPhase {
    /// About to try the next address.
    Trying,
    /// A connection to the candidate is being started.
    Connecting,
    /// The server socket is being put into the poller.
    Registering,
    /// Waiting for the poller to report the server socket ready.
    Waiting,
    /// The server socket is being asked whether it is connected.
    Checking,
    /// The delaying of small packets is being switched off, on this side.
    Nodelay { side: Side },
    /// All is set for forwarding.
    Ready,
}

/// A connection that is being set up, as the contracts see it.
pub struct ConnectingView {
    pub client: RegisteredView,
    pub server: RegisteredView,
    pub client_is_unix: bool,
    /// The addresses of the server, in the order in which they are tried.
    pub addrs: Seq<AddrView>,
    /// Which of the addresses is the candidate.
    pub next: nat,
    pub phase: ConnectPhase,
}

impl ConnectingView {
    /// Whether `input` is what this state is waiting for.
    pub open spec fn accepts(self, input: InputView) -> bool {
        match (self.phase, input) {
            (ConnectPhase::Trying, InputView::Go) => true,
            (ConnectPhase::Connecting, InputView::Connected(_)) => true,
            (ConnectPhase::Registering, InputView::Registered(_)) => true,
            (ConnectPhase::Waiting, InputView::Go) => true,
            (ConnectPhase::Checking, InputView::Established(_)) => true,
            (ConnectPhase::Nodelay { .. }, InputView::Nodelay(_)) => true,
            _ => false,
        }
    }

    /// While a candidate is at work, there is one.
    pub open spec fn wf(self) -> bool {
        self.phase != ConnectPhase::Trying ==> self.next < self.addrs.len()
    }

    /// The state after the candidate has failed.
    pub open spec fn given_up(self) -> ConnectingView {
        ConnectingView {
            server: RegisteredView::fresh(Seq::empty(), self.server.token),
            next: self.next + 1,
            phase: ConnectPhase::Trying,
            ..self
        }
    }

    /// A step that does nothing but enter `phase` and ask for `next`.
    pub open spec fn on(self, phase: ConnectPhase, next: Todo) -> Stepped<ConnectingView> {
        Stepped {
            state: ConnectingView { phase, ..self },
            events: Seq::empty(),
            result: Ok(just(next)),
        }
    }

    /// A step in which the candidate fails: this is reported, and the next
    /// address is the candidate.
    pub open spec fn failing(
        self,
        id: ConnectionId,
        remote: Seq<u8>,
        error: IoErrorView,
        immediately: bool,
        drop_server: bool,
    ) -> Stepped<ConnectingView> {
        Stepped {
            state: self.given_up(),
            events: seq![EventView::ConnectFailed { id, remote, error, immediately }],
            result: Ok(
                Step { shutdown_write: None, shutdown_read: None, drop_server, next: Todo::Again },
            ),
        }
    }

    /// One step of setting up a connection.
    ///
    /// The addresses of the server are tried in order. For each, a
    /// connection is started without waiting for it, and the socket is put
    /// into the poller. When the poller reports it ready, it is asked
    /// whether it is connected. If it is, forwarding can start; if it has
    /// failed, the next address is tried; if none is left, the connection
    /// cannot be made.
    pub open spec fn step(self, id: ConnectionId, input: InputView) -> Stepped<ConnectingView> {
        match (self.phase, input) {
            (ConnectPhase::Trying, InputView::Go) => if self.next < self.addrs.len() {
                Stepped {
                    state: ConnectingView { phase: ConnectPhase::Connecting, ..self },
                    events: seq![EventView::Connecting { id, remote: self.addrs[self.next as int] }],
                    result: Ok(just(Todo::Connect)),
                }
            } else {
                Stepped { state: self, events: Seq::empty(), result: Err(ErrorView::Connect) }
            },
            (ConnectPhase::Connecting, InputView::Connected(Ok(()))) => ConnectingView {
                server: RegisteredView::fresh(
                    self.addrs[self.next as int].text(),
                    self.server.token,
                ).needing(set![WRITABLE]),
                ..self
            }.on(ConnectPhase::Registering, Todo::Register { side: Side::Server }),
            (ConnectPhase::Connecting, InputView::Connected(Err(e))) => self.failing(
                id,
                self.addrs[self.next as int].text(),
                e,
                true,
                false,
            ),
            (ConnectPhase::Registering, InputView::Registered(Ok(()))) => ConnectingView {
                server: self.server.done(),
                ..self
            }.on(ConnectPhase::Waiting, Todo::Wait),
            (ConnectPhase::Registering, InputView::Registered(Err(e))) => self.failing(
                id,
                self.server.name,
                e,
                true,
                true,
            ),
            (ConnectPhase::Waiting, InputView::Go) => self.on(
                ConnectPhase::Checking,
                Todo::CheckEstablished,
            ),
            (ConnectPhase::Checking, InputView::Established(Ok(Some(peer)))) => Stepped {
                state: ConnectingView {
                    phase: ConnectPhase::Nodelay { side: Side::Client },
                    ..self
                },
                events: seq![EventView::Connected { id, peer }],
                result: Ok(just(Todo::SetNodelay { side: Side::Client })),
            },
            (ConnectPhase::Checking, InputView::Established(Ok(None))) => self.on(
                ConnectPhase::Waiting,
                Todo::Wait,
            ),
            (ConnectPhase::Checking, InputView::Established(Err(e))) => self.failing(
                id,
                self.server.name,
                e,
                false,
                true,
            ),
            (ConnectPhase::Nodelay { side }, InputView::Nodelay(Ok(()))) => if side
                == Side::Client {
                self.on(
                    ConnectPhase::Nodelay { side: Side::Server },
                    Todo::SetNodelay { side: Side::Server },
                )
            } else {
                self.on(ConnectPhase::Ready, Todo::Again)
            },
            (ConnectPhase::Nodelay { side }, InputView::Nodelay(Err(err))) => Stepped {
                state: self,
                events: Seq::empty(),
                result: Err(
                    ErrorView::Forward {
                        doing: "setting nodelay".spec_bytes(),
                        side: side_name(side).spec_bytes(),
                        err,
                    },
                ),
            },
            _ => Stepped { state: self, events: Seq::empty(), result: Ok(just(Todo::Wait)) },
        }
    }

    /// What the start of a connection comes to, given what the address of
    /// the server has been resolved to: the state in which the first
    /// address is about to be tried, or the report that there is none.
    pub open spec fn start(
        id: ConnectionId,
        server_addr: Seq<u8>,
        resolved: Result<Seq<AddrView>, IoErrorView>,
        client: RegisteredView,
        client_is_unix: bool,
        server_token: usize,
    ) -> Stepped<ConnectingView> {
        let fresh = ConnectingView {
            client,
            server: RegisteredView::fresh(Seq::empty(), server_token),
            client_is_unix,
            addrs: match resolved {
                Ok(addrs) => addrs,
                Err(_) => Seq::empty(),
            },
            next: 0,
            phase: ConnectPhase::Trying,
        };
        let error = match resolved {
            Err(e) => Some(e),
            Ok(addrs) => if addrs.len() == 0 {
                Some(
                    IoErrorView {
                        kind: IoErrorKind::NotFound,
                        message: "name does not resolve to any addresses".spec_bytes(),
                    },
                )
            } else {
                None
            },
        };
        match error {
            Some(error) => Stepped {
                state: fresh,
                events: seq![
                    EventView::ConnectFailed { id, remote: server_addr, error, immediately: true },
                ],
                result: Err(ErrorView::Connect),
            },
            None => Stepped { state: fresh, events: Seq::empty(), result: Ok(just(Todo::Again)) },
        }
    }
}

/// A connection that is being set up: the client socket as the poller
/// knows it, and the addresses of the server that are yet to be tried.
pub struct Connecting {
    client: Registered,
    server: Registered,
    client_is_unix: bool,
    addrs: Vec<Addr>,
    next: usize,
    phase: ConnectPhase,
}

impl View for Connecting {
    type V = ConnectingView;

    closed spec fn view(&self) -> ConnectingView {
        ConnectingView {
            client: self.client@,
            server: self.server@,
            client_is_unix: self.client_is_unix,
            addrs: addr_views(self.addrs@),
            next: self.next as nat,
            phase: self.phase,
        }
    }
}

impl Connecting {
    pub closed spec fn wf(&self) -> bool {
        &&& self.next <= self.addrs@.len()
        &&& self@.wf()
    }

    /// Start to set up the connection to the server for a client that has
    /// come in. `resolved` is what the address of the server has been
    /// resolved to.
    pub fn new(
        event_sink: &mut ConnectionSink,
        server_addr: &MonetAddr,
        resolved: Result<Vec<Addr>, IoError>,
        client_addr: Addr,
        client_token: usize,
        server_token: usize,
    ) -> (r: Result<Connecting, Error>)
        ensures
            final(event_sink).pending() == old(event_sink).pending() + ConnectingView::start(
                old(event_sink).1,
                server_addr@.text(),
                match resolved {
                    Ok(addrs) => Ok(addr_views(addrs@)),
                    Err(e) => Err(e@),
                },
                RegisteredView::fresh(client_addr@.text(), client_token),
                client_addr is Unix,
                server_token,
            ).events,
            final(event_sink).1 == old(event_sink).1,
            *final(final(event_sink).0) == *final(old(event_sink).0),
            r is Ok <==> (resolved matches Ok(addrs) && addrs@.len() > 0),
            r matches Ok(c) ==> c.wf() && c@ == ConnectingView::start(
                old(event_sink).1,
                server_addr@.text(),
                match resolved {
                    Ok(addrs) => Ok(addr_views(addrs@)),
                    Err(e) => Err(e@),
                },
                RegisteredView::fresh(client_addr@.text(), client_token),
                client_addr is Unix,
                server_token,
            ).state,
            r matches Err(e) ==> e@ == ErrorView::Connect,
    {
        proof {
            assert(event_sink.pending() + Seq::<EventView>::empty() =~= event_sink.pending());
        }
        let addrs = match resolved {
            Ok(addrs) => addrs,
            Err(e) => {
                event_sink.emit_connect_failed(server_addr.text(), true, e);
                return Err(Error::Connect);
            },
        };
        if addrs.len() == 0 {
            let e = IoError::new(IoErrorKind::NotFound, "name does not resolve to any addresses");
            event_sink.emit_connect_failed(server_addr.text(), true, e);
            return Err(Error::Connect);
        }
        let client_is_unix = client_addr.is_unix();
        let client = Registered::new(client_addr.text(), client_token);
        let server = Registered::new(Vec::new(), server_token);
        Ok(Connecting { client, server, client_is_unix, addrs, next: 0, phase: ConnectPhase::Trying })
    }

    /// Whether `input` is what this connection is waiting for.
    pub fn accepts(&self, input: &Input) -> (b: bool)
        ensures
            b == self@.accepts(input@),
    {
        match (self.phase, input) {
            (ConnectPhase::Trying, Input::Go) => true,
            (ConnectPhase::Connecting, Input::Connected(_)) => true,
            (ConnectPhase::Registering, Input::Registered(_)) => true,
            (ConnectPhase::Waiting, Input::Go) => true,
            (ConnectPhase::Checking, Input::Established(_)) => true,
            (ConnectPhase::Nodelay { .. }, Input::Nodelay(_)) => true,
            _ => false,
        }
    }

    /// The address that is being tried, if there is one.
    pub fn candidate(&self) -> (addr: Option<&Addr>)
        requires
            self.wf(),
        ensures
            addr is Some <==> self@.next < self@.addrs.len(),
            addr matches Some(a) ==> a@ == self@.addrs[self@.next as int],
    {
        if self.next < self.addrs.len() {
            Some(&self.addrs[self.next])
        } else {
            None
        }
    }

    /// What is to be done with the poller for the socket of `side`.
    pub fn registration(&self, side: Side) -> (change: Registration)
        ensures
            change@ == (match side {
                Side::Client => self@.client.planned(),
                Side::Server => self@.server.planned(),
            }),
    {
        match side {
            Side::Client => self.client.update_registration(),
            Side::Server => self.server.update_registration(),
        }
    }

    /// Forget what the sockets need, and say what is to be done with the
    /// poller to take them out of it: first for the client, then for the
    /// server.
    pub fn deregister(&mut self) -> (changes: (Registration, Registration))
        ensures
            changes.0@ == old(self)@.client.cleared().planned(),
            changes.1@ == old(self)@.server.cleared().planned(),
    {
        let client = self.client.deregister();
        let server = self.server.deregister();
        (client, server)
    }

    /// The candidate has failed: report it and go on to the next address.
    fn fail(
        &mut self,
        sink: &mut ConnectionSink,
        remote: Vec<u8>,
        error: IoError,
        immediately: bool,
        drop_server: bool,
    ) -> (step: Step)
        requires
            old(self).wf(),
            old(self)@.phase != ConnectPhase::Trying,
        ensures
            final(self).wf(),
            (Stepped {
                state: final(self)@,
                events: seq![
                    EventView::ConnectFailed {
                        id: old(sink).1,
                        remote: remote@,
                        error: error@,
                        immediately,
                    },
                ],
                result: Ok(step),
            }) == old(self)@.failing(old(sink).1, remote@, error@, immediately, drop_server),
            final(sink).pending() == old(sink).pending().push(
                EventView::ConnectFailed {
                    id: old(sink).1,
                    remote: remote@,
                    error: error@,
                    immediately,
                },
            ),
            final(sink).1 == old(sink).1,
            *final(final(sink).0) == *final(old(sink).0),
    {
        proof {
            assert(addr_views(self.addrs@).len() == self.addrs@.len());
        }
        sink.emit_connect_failed(remote, immediately, error);
        let token = self.server.token;
        self.server = Registered::new(Vec::new(), token);
        if self.next < self.addrs.len() {
            self.next = self.next + 1;
        }
        self.phase = ConnectPhase::Trying;
        Step { shutdown_write: None, shutdown_read: None, drop_server, next: Todo::Again }
    }

    /// Take one step. See [`ConnectingView::step`] for what the steps are.
    pub fn process(&mut self, sink: &mut ConnectionSink, input: Input) -> (r: Result<Step, Error>)
        requires
            old(self).wf(),
            old(self)@.accepts(input@),
        ensures
            final(self).wf(),
            final(self)@ == old(self)@.step(old(sink).1, input@).state,
            final(sink).pending() == old(sink).pending() + old(self)@.step(
                old(sink).1,
                input@,
            ).events,
            final(sink).1 == old(sink).1,
            *final(final(sink).0) == *final(old(sink).0),
            match r {
                Ok(step) => old(self)@.step(old(sink).1, input@).result == Ok::<Step, ErrorView>(
                    step,
                ),
                Err(e) => old(self)@.step(old(sink).1, input@).result == Err::<Step, ErrorView>(e@),
            },
    {
        let ghost emitted = sink.pending();
        proof {
            assert(emitted + Seq::<EventView>::empty() =~= emitted);
        }
        let nothing = Step {
            shutdown_write: None,
            shutdown_read: None,
            drop_server: false,
            next: Todo::Wait,
        };
        match (self.phase, input) {
            (ConnectPhase::Trying, Input::Go) => {
                if self.next < self.addrs.len() {
                    sink.emit_connecting(self.addrs[self.next].duplicate());
                    self.phase = ConnectPhase::Connecting;
                    proof {
                        assert(sink.pending() =~= emitted + seq![
                            EventView::Connecting {
                                id: sink.1,
                                remote: self@.addrs[self.next as int],
                            },
                        ]);
                    }
                    Ok(Step { next: Todo::Connect, ..nothing })
                } else {
                    Err(Error::Connect)
                }
            },
            (ConnectPhase::Connecting, Input::Connected(Ok(()))) => {
                let mut server = Registered::new(self.addrs[self.next].text(), self.server.token);
                server.need(writable());
                self.server = server;
                self.phase = ConnectPhase::Registering;
                Ok(Step { next: Todo::Register { side: Side::Server }, ..nothing })
            },
            (ConnectPhase::Connecting, Input::Connected(Err(e))) => {
                let remote = self.addrs[self.next].text();
                let ghost failed = EventView::ConnectFailed {
                    id: sink.1,
                    remote: remote@,
                    error: e@,
                    immediately: true,
                };
                let step = self.fail(sink, remote, e, true, false);
                proof {
                    assert(sink.pending() =~= emitted + seq![failed]);
                }
                Ok(step)
            },
            (ConnectPhase::Registering, Input::Registered(Ok(()))) => {
                self.server.registration_done();
                self.phase = ConnectPhase::Waiting;
                Ok(nothing)
            },
            (ConnectPhase::Registering, Input::Registered(Err(e))) => {
                let remote = self.server.name.clone();
                let ghost failed = EventView::ConnectFailed {
                    id: sink.1,
                    remote: remote@,
                    error: e@,
                    immediately: true,
                };
                let step = self.fail(sink, remote, e, true, true);
                proof {
                    assert(sink.pending() =~= emitted + seq![failed]);
                }
                Ok(step)
            },
            (ConnectPhase::Waiting, Input::Go) => {
                self.phase = ConnectPhase::Checking;
                Ok(Step { next: Todo::CheckEstablished, ..nothing })
            },
            (ConnectPhase::Checking, Input::Established(Ok(Some(peer)))) => {
                let ghost connected = EventView::Connected { id: sink.1, peer: peer@ };
                sink.emit_connected(peer);
                self.phase = ConnectPhase::Nodelay { side: Side::Client };
                proof {
                    assert(sink.pending() =~= emitted + seq![connected]);
                }
                Ok(Step { next: Todo::SetNodelay { side: Side::Client }, ..nothing })
            },
            (ConnectPhase::Checking, Input::Established(Ok(None))) => {
                self.phase = ConnectPhase::Waiting;
                Ok(nothing)
            },
            (ConnectPhase::Checking, Input::Established(Err(e))) => {
                let remote = self.server.name.clone();
                let ghost failed = EventView::ConnectFailed {
                    id: sink.1,
                    remote: remote@,
                    error: e@,
                    immediately: false,
                };
                let step = self.fail(sink, remote, e, false, true);
                proof {
                    assert(sink.pending() =~= emitted + seq![failed]);
                }
                Ok(step)
            },
            (ConnectPhase::Nodelay { side }, Input::Nodelay(Ok(()))) => {
                match side {
                    Side::Client => {
                        self.phase = ConnectPhase::Nodelay { side: Side::Server };
                        Ok(Step { next: Todo::SetNodelay { side: Side::Server }, ..nothing })
                    },
                    Side::Server => {
                        self.phase = ConnectPhase::Ready;
                        Ok(Step { next: Todo::Again, ..nothing })
                    },
                }
            },
            (ConnectPhase::Nodelay { side }, Input::Nodelay(Err(err))) => Err(
                Error::Forward { doing: "setting nodelay", side: side.name(), err },
            ),
            _ => Ok(nothing),
        }
    }

    /// Turn a connection that is set up into one that is being forwarded.
    pub fn into_running(self) -> (r: Running)
        requires
            self.wf(),
            self@.phase == ConnectPhase::Ready,
        ensures
            r.wf(),
            r@ == RunningView::initial(
                self@.client,
                self@.server,
                self@.client_is_unix,
                self@.addrs[self@.next as int] is Unix,
            ),
    {
        let server_is_unix = self.addrs[self.next].is_unix();
        Running::from(self.client, self.server, self.client_is_unix, server_is_unix)
    }
}

/// The two stages of a connection.
pub enum Forwarding {
    Connecting(Connecting),
    Running(Running),
}

/// The stage of a connection, as the contracts see it.
pub enum ForwardingView {
    Connecting(ConnectingView),
    Running(RunningView),
}

impl View for Forwarding {
    type V = ForwardingView;

    open spec fn view(&self) -> ForwardingView {
        match *self {
            Forwarding::Connecting(c) => ForwardingView::Connecting(c@),
            Forwarding::Running(r) => ForwardingView::Running(r@),
        }
    }
}

/// What an address has been resolved to, as the contracts see it.
pub open spec fn resolved_view(resolved: Result<Vec<Addr>, IoError>) -> Result<
    Seq<AddrView>,
    IoErrorView,
> {
    match resolved {
        Ok(addrs) => Ok(addr_views(addrs@)),
        Err(e) => Err(e@),
    }
}

impl ForwardingView {
    /// The client socket as the poller knows it.
    pub open spec fn client(self) -> RegisteredView {
        match self {
            ForwardingView::Connecting(c) => c.client,
            ForwardingView::Running(r) => r.client,
        }
    }

    /// The server socket as the poller knows it.
    pub open spec fn server(self) -> RegisteredView {
        match self {
            ForwardingView::Connecting(c) => c.server,
            ForwardingView::Running(r) => r.server,
        }
    }

    /// Whether `input` is what this stage is waiting for.
    pub open spec fn accepts(self, input: InputView) -> bool {
        match self {
            ForwardingView::Connecting(c) => c.accepts(input),
            ForwardingView::Running(r) => r.accepts(input),
        }
    }

    /// One step of a connection. A connection that is set up goes on to
    /// being forwarded.
    pub open spec fn step(self, id: ConnectionId, input: InputView) -> Stepped<ForwardingView> {
        match self {
            ForwardingView::Connecting(c) => {
                let out = c.step(id, input);
                Stepped {
                    state: if out.state.phase == ConnectPhase::Ready {
                        ForwardingView::Running(
                            RunningView::initial(
                                out.state.client,
                                out.state.server,
                                out.state.client_is_unix,
                                out.state.addrs[out.state.next as int] is Unix,
                            ),
                        )
                    } else {
                        ForwardingView::Connecting(out.state)
                    },
                    events: out.events,
                    result: out.result,
                }
            },
            ForwardingView::Running(r) => {
                let out = r.step(id, input);
                Stepped {
                    state: ForwardingView::Running(out.state),
                    events: out.events,
                    result: out.result,
                }
            },
        }
    }
}

impl Forwarding {
    pub open spec fn wf(&self) -> bool {
        match *self {
            Forwarding::Connecting(c) => c.wf() && c@.phase != ConnectPhase::Ready,
            Forwarding::Running(r) => r.wf(),
        }
    }
}

/// A connection between a client and the server, from the moment the
/// client has come in.
pub struct Forwarder(Option<Forwarding>, ConnectionId);

impl View for Forwarder {
    type V = ForwardingView;

    closed spec fn view(&self) -> ForwardingView {
        self.0->0@
    }
}

impl Forwarder {
    pub closed spec fn wf(&self) -> bool {
        self.0 is Some && self.0->0.wf()
    }

    /// The id of the connection.
    pub closed spec fn spec_id(&self) -> ConnectionId {
        self.1
    }

    /// Start to forward the connection of a client that has come in.
    /// `resolved` is what `forward_addr`, the address of the server, has
    /// been resolved to.
    pub fn new(
        event_sink: &mut ConnectionSink,
        peer: Addr,
        client_token: usize,
        forward_addr: &MonetAddr,
        resolved: Result<Vec<Addr>, IoError>,
        server_token: usize,
    ) -> (r: Result<Forwarder, Error>)
        ensures
            final(event_sink).pending() == old(event_sink).pending() + ConnectingView::start(
                old(event_sink).1,
                forward_addr@.text(),
                match resolved {
                    Ok(addrs) => Ok(addr_views(addrs@)),
                    Err(e) => Err(e@),
                },
                RegisteredView::fresh(peer@.text(), client_token),
                peer is Unix,
                server_token,
            ).events,
            final(event_sink).1 == old(event_sink).1,
            *final(final(event_sink).0) == *final(old(event_sink).0),
            r is Ok <==> (resolved matches Ok(addrs) && addrs@.len() > 0),
            r matches Ok(f) ==> f.wf() && f.spec_id() == old(event_sink).1 && f@
                == ForwardingView::Connecting(
                ConnectingView::start(
                    old(event_sink).1,
                    forward_addr@.text(),
                    match resolved {
                        Ok(addrs) => Ok(addr_views(addrs@)),
                        Err(e) => Err(e@),
                    },
                    RegisteredView::fresh(peer@.text(), client_token),
                    peer is Unix,
                    server_token,
                ).state,
            ),
            r matches Err(e) ==> e@ == ErrorView::Connect,
    {
        let id = event_sink.id();
        match Connecting::new(event_sink, forward_addr, resolved, peer, client_token, server_token) {
            Ok(connecting) => Ok(Forwarder(Some(Forwarding::Connecting(connecting)), id)),
            Err(e) => Err(e),
        }
    }

    pub fn id(&self) -> (id: ConnectionId)
        ensures
            id == self.spec_id(),
    {
        self.1
    }

    /// Whether `input` is what this connection is waiting for.
    pub fn accepts(&self, input: &Input) -> (b: bool)
        requires
            self.wf(),
        ensures
            b == self@.accepts(input@),
    {
        match &self.0 {
            Some(Forwarding::Connecting(c)) => c.accepts(input),
            Some(Forwarding::Running(r)) => r.accepts(input),
            None => false,
        }
    }

    /// The address that is being tried, if the connection is being set up
    /// and there is one.
    pub fn candidate(&self) -> (addr: Option<&Addr>)
        requires
            self.wf(),
        ensures
            addr is Some <==> (self@ matches ForwardingView::Connecting(c) && c.next
                < c.addrs.len()),
            addr matches Some(a) ==> a@ == self@->Connecting_0.addrs[self@->Connecting_0.next as int],
    {
        match &self.0 {
            Some(Forwarding::Connecting(c)) => c.candidate(),
            _ => None,
        }
    }

    /// The bytes of a direction that have not been written yet.
    pub fn unsent(&self, direction: Direction) -> (bytes: &[u8])
        requires
            self.wf(),
        ensures
            bytes@ == (match self@ {
                ForwardingView::Running(r) => r.copy(direction).pending,
                _ => Seq::empty(),
            }),
    {
        match &self.0 {
            Some(Forwarding::Running(r)) => r.unsent(direction),
            _ => {
                let nothing: &[u8] = &[];
                assert(nothing@ =~= Seq::<u8>::empty());
                nothing
            },
        }
    }

    /// What is to be done with the poller for the socket of `side`.
    pub fn registration(&self, side: Side) -> (change: Registration)
        requires
            self.wf(),
        ensures
            change@ == (match side {
                Side::Client => self@.client().planned(),
                Side::Server => self@.server().planned(),
            }),
    {
        match &self.0 {
            Some(Forwarding::Connecting(c)) => c.registration(side),
            Some(Forwarding::Running(r)) => r.registration(side),
            None => Registration::Keep,
        }
    }

    /// Forget what the sockets need, and say what is to be done with the
    /// poller to take them out of it: first for the client, then for the
    /// server.
    pub fn deregister(&mut self) -> (changes: (Registration, Registration))
        requires
            old(self).wf(),
        ensures
            changes.0@ == old(self)@.client().cleared().planned(),
            changes.1@ == old(self)@.server().cleared().planned(),
            final(self).spec_id() == old(self).spec_id(),
    {
        match &mut self.0 {
            Some(Forwarding::Connecting(c)) => c.deregister(),
            Some(Forwarding::Running(r)) => r.deregister(),
            None => (Registration::Keep, Registration::Keep),
        }
    }

    /// Take one step. See [`ConnectingView::step`] and [`RunningView::step`]
    /// for what the steps are.
    pub fn handle_event(&mut self, sink: &mut ConnectionSink, input: Input) -> (r: Result<
        Step,
        Error,
    >)
        requires
            old(self).wf(),
            old(self)@.accepts(input@),
        ensures
            final(self).wf(),
            final(self).spec_id() == old(self).spec_id(),
            final(self)@ == old(self)@.step(old(sink).1, input@).state,
            final(sink).pending() == old(sink).pending() + old(self)@.step(
                old(sink).1,
                input@,
            ).events,
            final(sink).1 == old(sink).1,
            *final(final(sink).0) == *final(old(sink).0),
            match r {
                Ok(step) => old(self)@.step(old(sink).1, input@).result == Ok::<Step, ErrorView>(
                    step,
                ),
                Err(e) => old(self)@.step(old(sink).1, input@).result == Err::<Step, ErrorView>(e@),
            },
    {
        let old_state = self.0.take();
        match old_state {
            Some(Forwarding::Connecting(mut c)) => {
                let r = c.process(sink, input);
                if c.phase == ConnectPhase::Ready {
                    self.0 = Some(Forwarding::Running(c.into_running()));
                } else {
                    self.0 = Some(Forwarding::Connecting(c));
                }
                r
            },
            Some(Forwarding::Running(mut running)) => {
                let r = running.process(sink, input);
                self.0 = Some(Forwarding::Running(running));
                r
            },
            None => Ok(
                Step {
                    shutdown_write: None,
                    shutdown_read: None,
                    drop_server: false,
                    next: Todo::Wait,
                },
            ),
        }
    }
}

} // verus!
