//! The events that the proxy reports, and the sinks that collect them.

use crate::error::{Error, ErrorView, IoError, IoErrorView};
use crate::network::{Addr, AddrView};
use crate::text::{decimal_digits, push_decimal};
use smallvec::SmallVec;
use vstd::prelude::*;
use vstd::slice::slice_to_vec;

verus! {

/// Connection id for display to the user.
/// Displayed with a leading #, for example #10.
#[derive(Debug, PartialEq, Eq, PartialOrd, Ord, Clone, Copy, Hash, Structural)]
pub struct ConnectionId(pub usize);

impl ConnectionId {
    pub fn new(n: usize) -> (id: ConnectionId)
        ensures
            id.0 == n,
    {
        ConnectionId(n)
    }

    /// The id as shown to the user.
    pub open spec fn spec_text(self) -> Seq<u8> {
        seq![35u8] + decimal_digits(self.0 as nat)
    }

    /// Append the id as shown to the user to `out`.
    pub fn push_text(&self, out: &mut Vec<u8>)
        ensures
            final(out)@ == old(out)@ + self.spec_text(),
    {
        out.push(35);
        push_decimal(out, self.0);
        assert(out@ =~= old(out)@ + self.spec_text());
    }

    /// The id as shown to the user.
    pub fn text(&self) -> (out: Vec<u8>)
        ensures
            out@ == self.spec_text(),
    {
        let mut out: Vec<u8> = Vec::new();
        self.push_text(&mut out);
        assert(Seq::<u8>::empty() + self.spec_text() =~= self.spec_text());
        out
    }
}

/// Enum to indicate client->server versus server->client
#[derive(Debug, PartialEq, Eq, Clone, Copy, Structural)]
pub enum Direction {
    /// Traffic flowing from client to server
    Upstream,
    /// Traffic flowing from server to client
    Downstream,
}

/// The side that sends in a direction.
pub open spec fn sender_of(direction: Direction) -> &'static str {
    match direction {
        Direction::Upstream => "client",
        Direction::Downstream => "server",
    }
}

/// The side that receives in a direction.
pub open spec fn receiver_of(direction: Direction) -> &'static str {
    match direction {
        Direction::Upstream => "server",
        Direction::Downstream => "client",
    }
}

/// The name of a direction as shown to the user.
pub open spec fn label_of(direction: Direction) -> &'static str {
    match direction {
        Direction::Upstream => "UPSTREAM",
        Direction::Downstream => "DOWNSTREAM",
    }
}

impl Direction {
    pub const CLIENT: &'static str = "client";

    pub const SERVER: &'static str = "server";

    /// Return 'client' or 'server' depending on where traffic comes from
    pub fn sender(&self) -> (s: &'static str)
        ensures
            s == sender_of(*self),
    {
        match self {
            Direction::Upstream => "client",
            Direction::Downstream => "server",
        }
    }

    /// Return 'client' or 'server' depending on where traffic goes
    pub fn receiver(&self) -> (s: &'static str)
        ensures
            s == receiver_of(*self),
    {
        match self {
            Direction::Upstream => "server",
            Direction::Downstream => "client",
        }
    }

    /// The name of the direction as shown to the user.
    pub fn label(&self) -> (s: &'static str)
        ensures
            s == label_of(*self),
    {
        match self {
            Direction::Upstream => "UPSTREAM",
            Direction::Downstream => "DOWNSTREAM",
        }
    }

    /// The other direction.
    pub open spec fn opposite_of(self) -> Direction {
        match self {
            Direction::Upstream => Direction::Downstream,
            Direction::Downstream => Direction::Upstream,
        }
    }

    /// The other direction.
    pub fn opposite(&self) -> (d: Direction)
        ensures
            d == self.opposite_of(),
    {
        match self {
            Direction::Upstream => Direction::Downstream,
            Direction::Downstream => Direction::Upstream,
        }
    }
}

/// The bytes of a `Data` event. Most of them are short, so they are kept in
/// a small vector that does not allocate for up to eight bytes.
#[verifier::external_body]
#[derive(Debug, PartialEq, Eq)]
pub struct Payload {
    bytes: SmallVec<[u8; 8]>,
}

/// The bytes that a [`Payload`] holds.
pub uninterp spec fn payload_bytes(payload: Payload) -> Seq<u8>;

impl View for Payload {
    type V = Seq<u8>;

    open spec fn view(&self) -> Seq<u8> {
        payload_bytes(*self)
    }
}

/// `SmallVec::from_slice`: a small vector that holds a copy of the bytes of
/// `data`, in order.
#[verifier::external_body]
fn payload_from_slice(data: &[u8]) -> (payload: Payload)
    ensures
        payload_bytes(payload) == data@,
{
    Payload { bytes: SmallVec::from_slice(data) }
}

/// `SmallVec::as_slice`: the bytes that the small vector holds, in order.
#[verifier::external_body]
fn payload_as_slice(payload: &Payload) -> (data: &[u8])
    ensures
        data@ == payload_bytes(*payload),
{
    payload.bytes.as_slice()
}

impl Payload {
    /// A payload that holds a copy of `data`.
    pub fn new(data: &[u8]) -> (payload: Payload)
        ensures
            payload@ == data@,
    {
        payload_from_slice(data)
    }

    /// The bytes of the payload.
    pub fn as_slice(&self) -> (data: &[u8])
        ensures
            data@ == self@,
    {
        payload_as_slice(self)
    }

    /// A copy of the bytes of the payload.
    pub fn to_vec(&self) -> (data: Vec<u8>)
        ensures
            data@ == self@,
    {
        slice_to_vec(payload_as_slice(self))
    }
}

/// Type to represent the events that need to be reported on
#[derive(Debug)]
#[allow(inconsistent_fields)]
pub enum MapiEvent {
    /// Proxy has succesfully bound listen port
    BoundPort(Addr),
    /// A new client connection has been detected. Introduces a newly allocated
    /// [ConnectionId].
    Incoming { id: ConnectionId, local: Addr, peer: Addr },
    /// Proxy is connecting to the server
    Connecting { id: ConnectionId, remote: Addr },
    /// Server has accepted the new connection
    Connected { id: ConnectionId, peer: Addr },
    /// The connection has ended peacefully, no more events on this
    /// [ConnectionId] will be reported.
    End { id: ConnectionId },
    /// Something went wrong in the proxy (not in the client or the server), no
    /// more events on this [ConnectionId] will be reported.
    Aborted { id: ConnectionId, error: Error },
    /// Data has been observed flowing from client to server
    /// ([Direction::Upstream]) or from server to client
    /// ([Direction::Downstream]).
    Data { id: ConnectionId, direction: Direction, data: Payload },
    /// Client or server has shut down the write-half of its socket. No more data will
    /// flow in this direction.
    ShutdownRead { id: ConnectionId, direction: Direction },
    /// Client or server has shut down the read-half of its socket. No more data
    /// flowing in this direction will be accepted. This event includes the number
    /// of bytes that are still inside the proxy and can no longer be sent onward.
    ShutdownWrite { id: ConnectionId, direction: Direction, discard: usize },
    /// The connection attempt from proxy to server has failed. The proxy
    /// uses non-blocking I/O. If the attempt was refused immediately, for
    /// example because the address is bad, field `immediately` will be `true`.
    /// If the attempt failed later, for example because the server refused
    /// the connection, it will be `false`.
    ConnectFailed { id: ConnectionId, remote: Vec<u8>, error: IoError, immediately: bool },
}

/// What a [`MapiEvent`] stands for.
#[allow(inconsistent_fields)]
pub enum EventView {
    BoundPort(AddrView),
    Incoming { id: ConnectionId, local: AddrView, peer: AddrView },
    Connecting { id: ConnectionId, remote: AddrView },
    Connected { id: ConnectionId, peer: AddrView },
    End { id: ConnectionId },
    Aborted { id: ConnectionId, error: ErrorView },
    Data { id: ConnectionId, direction: Direction, data: Seq<u8> },
    ShutdownRead { id: ConnectionId, direction: Direction },
    ShutdownWrite { id: ConnectionId, direction: Direction, discard: usize },
    ConnectFailed { id: ConnectionId, remote: Seq<u8>, error: IoErrorView, immediately: bool },
}

impl View for MapiEvent {
    type V = EventView;

    open spec fn view(&self) -> EventView {
        match *self {
            MapiEvent::BoundPort(a) => EventView::BoundPort(a@),
            MapiEvent::Incoming { id, local, peer } => EventView::Incoming {
                id,
                local: local@,
                peer: peer@,
            },
            MapiEvent::Connecting { id, remote } => EventView::Connecting { id, remote: remote@ },
            MapiEvent::Connected { id, peer } => EventView::Connected { id, peer: peer@ },
            MapiEvent::End { id } => EventView::End { id },
            MapiEvent::Aborted { id, error } => EventView::Aborted { id, error: error@ },
            MapiEvent::Data { id, direction, data } => EventView::Data { id, direction, data: data@ },
            MapiEvent::ShutdownRead { id, direction } => EventView::ShutdownRead { id, direction },
            MapiEvent::ShutdownWrite { id, direction, discard } => EventView::ShutdownWrite {
                id,
                direction,
                discard,
            },
            MapiEvent::ConnectFailed { id, remote, error, immediately } => EventView::ConnectFailed {
                id,
                remote: remote@,
                error: error@,
                immediately,
            },
        }
    }
}

/// The bytes of all `Data` events among `events` that belong to connection
/// `id` and flow in `direction`, in order.
pub open spec fn data_of(events: Seq<EventView>, id: ConnectionId, direction: Direction) -> Seq<u8>
    decreases events.len(),
{
    if events.len() == 0 {
        Seq::empty()
    } else {
        data_of(events.drop_last(), id, direction) + (match events.last() {
            EventView::Data { id: i, direction: d, data } => if i == id && d == direction {
                data
            } else {
                Seq::empty()
            },
            _ => Seq::empty(),
        })
    }
}

/// [EventSink] collects the [MapiEvent]s that the proxy reports until they
/// are taken out to be delivered, and provides helper functions to generate
/// such events.
///
/// Method [EventSink::connection_sink] returns a derived struct that also
/// holds a connection id and is used to emit events specific to a single
/// connection.
pub struct EventSink {
    pub events: Vec<MapiEvent>,
}

impl EventSink {
    /// The events that have been emitted and not yet taken out, oldest first.
    pub open spec fn pending(&self) -> Seq<EventView> {
        self.events@.map_values(|e: MapiEvent| e@)
    }

    /// Create a new, empty EventSink.
    pub fn new() -> (sink: EventSink)
        ensures
            sink.pending() == Seq::<EventView>::empty(),
    {
        let sink = EventSink { events: Vec::new() };
        assert(sink.pending() =~= Seq::<EventView>::empty());
        sink
    }

    /// Create a [ConnectionSink] that will deliver messages about a specific
    /// connection id.
    pub fn connection_sink(&mut self, id: ConnectionId) -> (conn: ConnectionSink<'_>)
        ensures
            conn.1 == id,
            *conn.0 == *old(self),
            *final(self) == *final(conn.0),
    {
        ConnectionSink::new(self, id)
    }

    /// Emit the given event.
    pub fn emit_event(&mut self, event: MapiEvent)
        ensures
            final(self).pending() == old(self).pending().push(event@),
    {
        self.events.push(event);
        assert(self.pending() =~= old(self).pending().push(event@));
    }

    /// Emit a [MapiEvent::BoundPort] event.
    pub fn emit_bound(&mut self, port: Addr)
        ensures
            final(self).pending() == old(self).pending().push(EventView::BoundPort(port@)),
    {
        self.emit_event(MapiEvent::BoundPort(port))
    }

    /// Take out the events that have been collected, oldest first.
    pub fn take(&mut self) -> (events: Vec<MapiEvent>)
        ensures
            events@.map_values(|e: MapiEvent| e@) == old(self).pending(),
            final(self).pending() == Seq::<EventView>::empty(),
    {
        let mut events: Vec<MapiEvent> = Vec::new();
        core::mem::swap(&mut events, &mut self.events);
        assert(self.pending() =~= Seq::<EventView>::empty());
        events
    }
}

/// Helper struct to emit [MapiEvent]s about a specific connection.
pub struct ConnectionSink<'a>(pub &'a mut EventSink, pub ConnectionId);

impl<'a> ConnectionSink<'a> {
    pub fn new(event_sink: &'a mut EventSink, id: ConnectionId) -> (conn: Self)
        ensures
            conn.1 == id,
            *conn.0 == *old(event_sink),
            *final(event_sink) == *final(conn.0),
    {
        ConnectionSink(event_sink, id)
    }

    /// The events that have been emitted and not yet taken out, oldest first.
    pub open spec fn pending(&self) -> Seq<EventView> {
        self.0.pending()
    }

    /// The [ConnectionId] this struct emits events about
    pub fn id(&self) -> (id: ConnectionId)
        ensures
            id == self.1,
    {
        self.1
    }

    /// Emit the given event.
    pub fn emit_event(&mut self, event: MapiEvent)
        ensures
            final(self).pending() == old(self).pending().push(event@),
            final(self).1 == old(self).1,
            *final(final(self).0) == *final(old(self).0),
    {
        self.0.emit_event(event);
    }

    /// Emit a [MapiEvent::Incoming] event.
    pub fn emit_incoming(&mut self, local: Addr, peer: Addr)
        ensures
            final(self).pending() == old(self).pending().push(
                EventView::Incoming { id: old(self).1, local: local@, peer: peer@ },
            ),
            final(self).1 == old(self).1,
            *final(final(self).0) == *final(old(self).0),
    {
        let id = self.id();
        self.emit_event(MapiEvent::Incoming { id, local, peer });
    }

    /// Emit a [MapiEvent::Connecting] event.
    pub fn emit_connecting(&mut self, remote: Addr)
        ensures
            final(self).pending() == old(self).pending().push(
                EventView::Connecting { id: old(self).1, remote: remote@ },
            ),
            final(self).1 == old(self).1,
            *final(final(self).0) == *final(old(self).0),
    {
        let id = self.id();
        self.emit_event(MapiEvent::Connecting { id, remote });
    }

    /// Emit a [MapiEvent::ConnectFailed] event.
    pub fn emit_connect_failed(&mut self, remote: Vec<u8>, immediately: bool, error: IoError)
        ensures
            final(self).pending() == old(self).pending().push(
                EventView::ConnectFailed {
                    id: old(self).1,
                    remote: remote@,
                    error: error@,
                    immediately,
                },
            ),
            final(self).1 == old(self).1,
            *final(final(self).0) == *final(old(self).0),
    {
        let id = self.id();
        self.emit_event(MapiEvent::ConnectFailed { id, remote, error, immediately });
    }

    /// Emit a [MapiEvent::Connected] event.
    pub fn emit_connected(&mut self, remote: Addr)
        ensures
            final(self).pending() == old(self).pending().push(
                EventView::Connected { id: old(self).1, peer: remote@ },
            ),
            final(self).1 == old(self).1,
            *final(final(self).0) == *final(old(self).0),
    {
        let id = self.id();
        self.emit_event(MapiEvent::Connected { id, peer: remote });
    }

    /// Emit a [MapiEvent::End] event.
    pub fn emit_end(&mut self)
        ensures
            final(self).pending() == old(self).pending().push(EventView::End { id: old(self).1 }),
            final(self).1 == old(self).1,
            *final(final(self).0) == *final(old(self).0),
    {
        let id = self.id();
        self.emit_event(MapiEvent::End { id });
    }

    /// Emit a [MapiEvent::Aborted] event.
    pub fn emit_aborted(&mut self, error: Error)
        ensures
            final(self).pending() == old(self).pending().push(
                EventView::Aborted { id: old(self).1, error: error@ },
            ),
            final(self).1 == old(self).1,
            *final(final(self).0) == *final(old(self).0),
    {
        let id = self.id();
        self.emit_event(MapiEvent::Aborted { id, error });
    }

    /// Emit a [MapiEvent::Data] event.
    pub fn emit_data(&mut self, direction: Direction, data: &[u8])
        ensures
            final(self).pending() == old(self).pending().push(
                EventView::Data { id: old(self).1, direction, data: data@ },
            ),
            final(self).1 == old(self).1,
            *final(final(self).0) == *final(old(self).0),
    {
        let id = self.id();
        self.emit_event(MapiEvent::Data { id, direction, data: Payload::new(data) });
    }

    /// Emit a [MapiEvent::ShutdownRead] event.
    pub fn emit_shutdown_read(&mut self, direction: Direction)
        ensures
            final(self).pending() == old(self).pending().push(
                EventView::ShutdownRead { id: old(self).1, direction },
            ),
            final(self).1 == old(self).1,
            *final(final(self).0) == *final(old(self).0),
    {
        let id = self.id();
        self.emit_event(MapiEvent::ShutdownRead { id, direction });
    }

    /// Emit a [MapiEvent::ShutdownWrite] event.
    pub fn emit_shutdown_write(&mut self, direction: Direction, discard: usize)
        ensures
            final(self).pending() == old(self).pending().push(
                EventView::ShutdownWrite { id: old(self).1, direction, discard },
            ),
            final(self).1 == old(self).1,
            *final(final(self).0) == *final(old(self).0),
    {
        let id = self.id();
        self.emit_event(MapiEvent::ShutdownWrite { id, direction, discard });
    }
}

} // verus!
