//! Putting the segments of captured TCP connections back in sequence.

use crate::event::{ConnectionId, Direction, EventSink, EventView, MapiEvent, Payload};
use crate::network::{Addr, AddrView, IpAddress, TcpAddr};
use std::collections::HashMap;
use vstd::prelude::*;
use vstd::slice::slice_to_vec;

verus! {

broadcast use vstd::std_specs::hash::group_hash_axioms;

/// The sequence number `n` bytes after `seqno`.
pub open spec fn seq_add(seqno: u32, n: nat) -> u32 {
    ((seqno + n) % 0x1_0000_0000) as u32
}

/// How far `seqno` is ahead of `base`, going forward around the circle of
/// sequence numbers.
pub open spec fn seq_ahead(seqno: u32, base: u32) -> nat {
    ((seqno - base) % 0x1_0000_0000) as nat
}

/// Whether `seqno` lies before `base`, that is in the half of the circle that
/// is nearer going backward. Such a segment has been seen already.
pub open spec fn seq_before(seqno: u32, base: u32) -> bool {
    seq_ahead(seqno, base) >= 0x8000_0000
}

/// One half of a TCP connection, as the contracts see it.
pub struct StreamView {
    pub id: ConnectionId,
    pub dir: Direction,
    /// Sequence number of the next byte we hope to receive.
    pub waiting_for: u32,
    /// Segments that have arrived ahead of their turn, by sequence number:
    /// their payload, and whether they ended the stream.
    pub waiting: Map<u32, (Seq<u8>, bool)>,
    /// Whether the last segment of the stream has been yielded.
    pub finished: bool,
}

impl StreamView {
    /// The state after a segment of `len` bytes has been yielded.
    pub open spec fn yielded(self, len: nat, fin: bool) -> StreamView {
        StreamView {
            finished: self.finished || fin,
            waiting_for: seq_add(self.waiting_for, len),
            ..self
        }
    }

    /// The state after a segment has arrived.
    pub open spec fn arrived(self, seqno: u32, fin: bool, payload: Seq<u8>) -> StreamView {
        if self.waiting_for == seqno {
            self.yielded(payload.len(), fin)
        } else if seq_before(seqno, self.waiting_for) {
            self
        } else {
            StreamView { waiting: self.waiting.insert(seqno, (payload, fin)), ..self }
        }
    }

    /// Whether the segment that is waited for has arrived ahead of its turn.
    pub open spec fn has_ready(self) -> bool {
        self.waiting.contains_key(self.waiting_for)
    }

    /// The payload of the segment that is waited for.
    pub open spec fn ready_payload(self) -> Seq<u8> {
        self.waiting[self.waiting_for].0
    }

    /// The state after the segment that was waited for has been taken out.
    pub open spec fn after_ready(self) -> StreamView {
        StreamView { waiting: self.waiting.remove(self.waiting_for), ..self }.yielded(
            self.ready_payload().len(),
            self.waiting[self.waiting_for].1,
        )
    }

    /// The payloads that can be taken out one after the other, at most
    /// `limit` of them.
    pub open spec fn ready_run(self, limit: nat) -> Seq<Seq<u8>>
        decreases limit,
    {
        if limit == 0 || !self.has_ready() {
            Seq::empty()
        } else {
            seq![self.ready_payload()] + self.after_ready().ready_run((limit - 1) as nat)
        }
    }

    /// What the arrival of a segment comes to: the state afterwards, and the
    /// payloads that are yielded, in order. A segment that is not the one
    /// waited for yields nothing. The one waited for yields its payload and
    /// those that were waiting for it.
    pub open spec fn delivered(self, seqno: u32, fin: bool, payload: Seq<u8>) -> (
        StreamView,
        Seq<Seq<u8>>,
    ) {
        let arrived = self.arrived(seqno, fin, payload);
        let limit = arrived.waiting.dom().len();
        if self.waiting_for == seqno {
            (arrived.after_run(limit), seq![payload] + arrived.ready_run(limit))
        } else {
            (arrived, Seq::empty())
        }
    }

    /// The state after `ready_run` has been taken out.
    pub open spec fn after_run(self, limit: nat) -> StreamView
        decreases limit,
    {
        if limit == 0 || !self.has_ready() {
            self
        } else {
            self.after_ready().after_run((limit - 1) as nat)
        }
    }
}

/// State stored for each half (client to server and server to client) of
/// each TCP connection.
#[derive(Debug)]
pub struct StreamState {
    /// Id to display for this connection
    id: ConnectionId,
    /// Is it upstream traffic (client to server) or downstream (server to client)
    dir: Direction,
    /// Sequence number of the next byte we hope to receive.
    waiting_for: u32,
    /// Packets with sequence numbers higher than `waiting_for` we have
    /// already received.
    waiting: HashMap<u32, (Vec<u8>, bool)>,
    /// If no more packets will arrive
    finished: bool,
}

impl View for StreamState {
    type V = StreamView;

    closed spec fn view(&self) -> StreamView {
        StreamView {
            id: self.id,
            dir: self.dir,
            waiting_for: self.waiting_for,
            waiting: self.waiting@.map_values(|v: (Vec<u8>, bool)| (v.0@, v.1)),
            finished: self.finished,
        }
    }
}

impl StreamState {
    /// Create a new [StreamState]
    pub fn new(id: ConnectionId, dir: Direction, seqno: u32) -> (s: StreamState)
        ensures
            s@ == (StreamView {
                id,
                dir,
                waiting_for: seqno,
                waiting: Map::<u32, (Seq<u8>, bool)>::empty(),
                finished: false,
            }),
    {
        let s = StreamState { id, dir, waiting_for: seqno, waiting: HashMap::new(), finished: false };
        assert(s@.waiting =~= Map::<u32, (Seq<u8>, bool)>::empty());
        s
    }

    pub fn id(&self) -> (id: ConnectionId)
        ensures
            id == self@.id,
    {
        self.id
    }

    pub fn direction(&self) -> (dir: Direction)
        ensures
            dir == self@.dir,
    {
        self.dir
    }

    pub fn finished(&self) -> (b: bool)
        ensures
            b == self@.finished,
    {
        self.finished
    }

    /// Number of segments that have arrived ahead of their turn.
    pub fn waiting_len(&self) -> (n: usize)
        ensures
            n == self@.waiting.dom().len(),
            self@.waiting.dom().finite(),
    {
        proof {
            let f = |v: (Vec<u8>, bool)| (v.0@, v.1);
            assert(self.waiting@.map_values(f).dom() =~= self.waiting@.dom());
        }
        self.waiting.len()
    }

    /// Check for duplicate packets and packets that arrive in the wrong order
    /// based on the sequence number. If this is exactly the sequence number we
    /// were waiting for, return it. If we've already processed this sequence
    /// number, drop it and return None. If it's a higher sequence number, store
    /// it in the map for later and also return None.
    ///
    /// When this function returns Some, [Self::next_ready] MUST be called next to
    /// retrieve any stored 'future' packets that can now be processed.
    pub fn reorder<'a>(&mut self, seqno: u32, fin: bool, payload: &'a [u8]) -> (r: Option<&'a [u8]>)
        ensures
            final(self)@ == old(self)@.arrived(seqno, fin, payload@),
            r is Some <==> old(self)@.waiting_for == seqno,
            r matches Some(p) ==> p@ == payload@,
    {
        if self.waiting_for == seqno {
            self.yield_payload(payload.len(), fin);
            return Some(payload);
        }
        // Discard packets we've already seen. Be careful with wraparound.
        // Example values: waiting_for = 0x30, seqno_1 = 0x31, seqno_2 = 0x2f.
        // delta_1 = 0x01, delta_2 = 0xffffffff, which is in the upper half.
        let delta: u32 = seqno.wrapping_sub(self.waiting_for);
        if delta >= 0x8000_0000 {
            return None;
        }
        let ghost before = self.waiting@;
        let stored = slice_to_vec(payload);
        self.waiting.insert(seqno, (stored, fin));
        proof {
            let f = |v: (Vec<u8>, bool)| (v.0@, v.1);
            assert(self.waiting@.map_values(f) =~= before.map_values(f).insert(
                seqno,
                (payload@, fin),
            ));
        }
        None
    }

    /// If the sequence number we're waiting for already exists in the map, return it.
    /// Call this repeatedly when [Self::reorder] has returned Some.
    pub fn next_ready(&mut self) -> (r: Option<Vec<u8>>)
        ensures
            r is Some <==> old(self)@.has_ready(),
            r matches Some(p) ==> p@ == old(self)@.ready_payload() && final(self)@ == old(self)@.after_ready(),
            r is None ==> final(self)@ == old(self)@,
            old(self)@.waiting.dom().finite(),
            r is Some ==> final(self)@.waiting.dom().len() < old(self)@.waiting.dom().len(),
    {
        let ghost before = self.waiting@;
        let ghost f = |v: (Vec<u8>, bool)| (v.0@, v.1);
        proof {
            assert(before.map_values(f).dom() =~= before.dom());
        }
        let key = self.waiting_for;
        match self.waiting.remove(&key) {
            Some((payload, fin)) => {
                proof {
                    assert(self.waiting@.map_values(f) =~= before.map_values(f).remove(key));
                    assert(self.waiting@.map_values(f).dom() =~= self.waiting@.dom());
                }
                self.yield_payload(payload.len(), fin);
                Some(payload)
            },
            None => {
                proof {
                    assert(self.waiting@ =~= before);
                }
                None
            },
        }
    }

    /// Update the bookkeeping before returning a packet of `len` bytes.
    fn yield_payload(&mut self, len: usize, fin: bool)
        ensures
            final(self)@ == old(self)@.yielded(len as nat, fin),
    {
        self.finished = self.finished || fin;
        let n: u32 = ((len as u64) % 0x1_0000_0000u64) as u32;
        proof {
            vstd::arithmetic::div_mod::lemma_add_mod_noop_right(
                self.waiting_for as int,
                len as int,
                0x1_0000_0000,
            );
        }
        self.waiting_for = self.waiting_for.wrapping_add(n);
    }
}

/// TCP connection state is identified by (src_ip,src_port, dest_ip,dest_port) tuples.
/// This struct represents those.
#[derive(Debug, PartialEq, Eq, Hash, Clone, Copy, Structural)]
pub struct Key {
    pub src: TcpAddr,
    pub dest: TcpAddr,
}

impl Key {
    /// Src and dest swapped.
    pub open spec fn flipped(self) -> Key {
        Key { src: self.dest, dest: self.src }
    }

    /// Return src and dest swapped.
    pub fn flip(&self) -> (k: Key)
        ensures
            k == self.flipped(),
    {
        Key { src: self.dest, dest: self.src }
    }
}

/// What the tracker reads of a TCP segment.
#[derive(Debug, Clone, PartialEq, Eq)]
pub struct TcpSegment {
    pub source_port: u16,
    pub destination_port: u16,
    pub sequence_number: u32,
    pub syn: bool,
    pub ack: bool,
    pub fin: bool,
    pub payload: Vec<u8>,
}

/// The `Data` events for the payloads that are not empty, in order.
pub open spec fn data_events(id: ConnectionId, direction: Direction, payloads: Seq<Seq<u8>>) -> Seq<
    EventView,
>
    decreases payloads.len(),
{
    if payloads.len() == 0 {
        Seq::empty()
    } else {
        let before = data_events(id, direction, payloads.drop_last());
        if payloads.last().len() > 0 {
            before.push(EventView::Data { id, direction, data: payloads.last() })
        } else {
            before
        }
    }
}

/// All TCP connection state, as the contracts see it.
pub struct TrackerView {
    /// The id that the next connection gets.
    pub next_id: usize,
    /// The halves of the connections that are being followed, by the
    /// addresses that their segments go from and to.
    pub streams: Map<Key, StreamView>,
}

/// What handling a segment comes to: the state afterwards, and the events
/// that are emitted.
pub struct Handled {
    pub state: TrackerView,
    pub events: Seq<EventView>,
}

impl TrackerView {
    /// A fresh half of a connection that starts after the segment `seqno`.
    pub open spec fn fresh(id: ConnectionId, dir: Direction, seqno: u32) -> StreamView {
        StreamView {
            id,
            dir,
            waiting_for: seq_add(seqno, 1),
            waiting: Map::empty(),
            finished: false,
        }
    }

    /// A client opens a connection. Unless one of its halves is followed
    /// already, the connection gets an id and its upstream half is followed
    /// from now on.
    pub open spec fn handle_syn(self, key: Key, seqno: u32) -> Handled {
        if self.streams.contains_key(key) || self.streams.contains_key(key.flipped()) {
            Handled { state: self, events: Seq::empty() }
        } else {
            let id = ConnectionId(self.next_id);
            Handled {
                state: TrackerView {
                    next_id: (self.next_id + 1) as usize,
                    streams: self.streams.insert(key, Self::fresh(id, Direction::Upstream, seqno)),
                },
                events: seq![
                    EventView::Incoming {
                        id,
                        local: AddrView::Tcp(key.dest),
                        peer: AddrView::Tcp(key.src),
                    },
                ],
            }
        }
    }

    /// A server accepts a connection. If the upstream half is followed, the
    /// downstream half is followed from now on.
    pub open spec fn handle_syn_ack(self, key: Key, seqno: u32) -> Handled {
        if !self.streams.contains_key(key.flipped()) {
            Handled { state: self, events: Seq::empty() }
        } else {
            let id = self.streams[key.flipped()].id;
            Handled {
                state: TrackerView {
                    streams: self.streams.insert(key, Self::fresh(id, Direction::Downstream, seqno)),
                    ..self
                },
                events: seq![EventView::Connected { id, peer: AddrView::Tcp(key.src) }],
            }
        }
    }

    /// Any other segment. If it belongs to a half that is followed and is
    /// the one waited for, its payload and those that were waiting for it are
    /// reported. When that ends the half, this is reported, and when both
    /// halves have ended, the connection is forgotten.
    pub open spec fn handle_existing(self, key: Key, seqno: u32, fin: bool, payload: Seq<u8>) -> Handled {
        if !self.streams.contains_key(key) {
            Handled { state: self, events: Seq::empty() }
        } else {
            let stream = self.streams[key];
            let id = stream.id;
            let direction = stream.dir;
            let (done, payloads) = stream.delivered(seqno, fin, payload);
            let events = data_events(id, direction, payloads);
            let streams = self.streams.insert(key, done);
            if stream.waiting_for != seqno {
                Handled { state: TrackerView { streams, ..self }, events: Seq::empty() }
            } else {
                if !done.finished {
                    Handled { state: TrackerView { streams, ..self }, events }
                } else if streams.contains_key(key.flipped()) && streams[key.flipped()].finished {
                    Handled {
                        state: TrackerView {
                            streams: streams.remove(key).remove(key.flipped()),
                            ..self
                        },
                        events: events.push(EventView::ShutdownRead { id, direction }).push(
                            EventView::End { id },
                        ),
                    }
                } else {
                    Handled {
                        state: TrackerView { streams, ..self },
                        events: events.push(EventView::ShutdownRead { id, direction }),
                    }
                }
            }
        }
    }

    /// Handling a segment that goes from `key.src` to `key.dest`.
    pub open spec fn handle(self, key: Key, tcp: TcpSegment) -> Handled {
        if tcp.syn && !tcp.ack {
            self.handle_syn(key, tcp.sequence_number)
        } else if tcp.syn && tcp.ack {
            self.handle_syn_ack(key, tcp.sequence_number)
        } else {
            self.handle_existing(key, tcp.sequence_number, tcp.fin, tcp.payload@)
        }
    }
}

/// The halves of the connections that are being followed, each under the
/// addresses that its segments go from and to. No key occurs twice.
pub struct FlowTable {
    keys: Vec<Key>,
    states: Vec<StreamState>,
}

impl View for FlowTable {
    type V = Map<Key, StreamView>;

    closed spec fn view(&self) -> Map<Key, StreamView> {
        Map::new(
            |k: Key| self.keys@.contains(k),
            |k: Key| self.states@[self.keys@.index_of(k)]@,
        )
    }
}

impl FlowTable {
    /// Every key has its state, and no key occurs twice.
    pub closed spec fn wf(&self) -> bool {
        &&& self.keys@.len() == self.states@.len()
        &&& self.keys@.no_duplicates()
    }

    /// A key that occurs once is found where it is.
    proof fn lemma_index(&self, i: int)
        requires
            self.wf(),
            0 <= i < self.keys@.len(),
        ensures
            self.keys@.contains(self.keys@[i]),
            self.keys@.index_of(self.keys@[i]) == i,
            self@.contains_key(self.keys@[i]),
            self@[self.keys@[i]] == self.states@[i]@,
    {
        let k = self.keys@[i];
        assert(self.keys@.contains(k));
        let j = self.keys@.index_of(k);
        assert(0 <= j < self.keys@.len() && self.keys@[j] == k);
    }

    pub fn new() -> (t: FlowTable)
        ensures
            t.wf(),
            t@ == Map::<Key, StreamView>::empty(),
    {
        let t = FlowTable { keys: Vec::new(), states: Vec::new() };
        assert(t@ =~= Map::<Key, StreamView>::empty());
        t
    }

    /// Where `key` is, if it is there.
    fn position(&self, key: &Key) -> (r: Option<usize>)
        requires
            self.wf(),
        ensures
            r is Some <==> self@.contains_key(*key),
            r matches Some(i) ==> i < self.keys@.len() && self.keys@[i as int] == *key,
    {
        let mut i: usize = 0;
        while i < self.keys.len()
            invariant
                self.wf(),
                i <= self.keys@.len(),
                forall|j: int| 0 <= j < i ==> self.keys@[j] != *key,
            decreases self.keys@.len() - i,
        {
            if self.keys[i] == *key {
                proof {
                    self.lemma_index(i as int);
                }
                return Some(i);
            }
            i = i + 1;
        }
        None
    }

    pub fn contains_key(&self, key: &Key) -> (b: bool)
        requires
            self.wf(),
        ensures
            b == self@.contains_key(*key),
    {
        self.position(key).is_some()
    }

    /// Whether `key` is there and its stream has ended.
    pub fn is_finished(&self, key: &Key) -> (b: bool)
        requires
            self.wf(),
        ensures
            b == (self@.contains_key(*key) && self@[*key].finished),
    {
        match self.position(key) {
            Some(i) => {
                proof {
                    self.lemma_index(i as int);
                }
                self.states[i].finished()
            },
            None => false,
        }
    }

    /// The id of the connection that `key` belongs to, if it is there.
    pub fn id_of(&self, key: &Key) -> (r: Option<ConnectionId>)
        requires
            self.wf(),
        ensures
            r is Some <==> self@.contains_key(*key),
            r matches Some(id) ==> id == self@[*key].id,
    {
        match self.position(key) {
            Some(i) => {
                proof {
                    self.lemma_index(i as int);
                }
                Some(self.states[i].id())
            },
            None => None,
        }
    }

    /// Take out `key` and its state, if it is there.
    pub fn remove(&mut self, key: &Key) -> (r: Option<StreamState>)
        requires
            old(self).wf(),
        ensures
            final(self).wf(),
            final(self)@ == old(self)@.remove(*key),
            r is Some <==> old(self)@.contains_key(*key),
            r matches Some(s) ==> s@ == old(self)@[*key],
    {
        match self.position(key) {
            None => {
                assert(self@ =~= old(self)@.remove(*key));
                None
            },
            Some(i) => {
                proof {
                    self.lemma_index(i as int);
                }
                let ghost keys = self.keys@;
                let ghost states = self.states@;
                self.keys.remove(i);
                let state = self.states.remove(i);
                proof {
                    assert(self.keys@ =~= keys.remove(i as int));
                    assert(self.states@ =~= states.remove(i as int));
                    assert forall|a: int, b: int|
                        0 <= a < self.keys@.len() && 0 <= b < self.keys@.len() && a
                            != b implies self.keys@[a] != self.keys@[b] by {
                        let a0 = if a < i { a } else { a + 1 };
                        let b0 = if b < i { b } else { b + 1 };
                        assert(keys[a0] != keys[b0]);
                    }
                    assert forall|k: Key| #[trigger] self@.contains_key(k) <==> old(self)@.remove(
                        *key,
                    ).contains_key(k) by {
                        if self.keys@.contains(k) {
                            let j = self.keys@.index_of(k);
                            let j0 = if j < i { j } else { j + 1 };
                            assert(keys[j0] == k);
                        }
                        if keys.contains(k) && k != *key {
                            let j0 = keys.index_of(k);
                            let j = if j0 < i { j0 } else { j0 - 1 };
                            assert(self.keys@[j] == k);
                        }
                    }
                    assert forall|k: Key| #[trigger] self@.contains_key(k) implies self@[k] == old(self)@[k] by {
                        let j = self.keys@.index_of(k);
                        let j0 = if j < i { j } else { j + 1 };
                        assert(keys[j0] == k);
                        old(self).lemma_index(j0);
                    }
                    assert(self@ =~= old(self)@.remove(*key));
                }
                Some(state)
            },
        }
    }

    /// Put `state` under `key`, in place of what was there.
    pub fn insert(&mut self, key: Key, state: StreamState)
        requires
            old(self).wf(),
        ensures
            final(self).wf(),
            final(self)@ == old(self)@.insert(key, state@),
    {
        let _ = self.remove(&key);
        let ghost mid = *self;
        let ghost keys = self.keys@;
        assert(!self@.contains_key(key));
        assert(!keys.contains(key));
        self.keys.push(key);
        self.states.push(state);
        proof {
            let n = keys.len() as int;
            assert forall|k: Key| #[trigger] self@.contains_key(k) <==> mid@.insert(
                key,
                state@,
            ).contains_key(k) by {
                if self.keys@.contains(k) {
                    let j = self.keys@.index_of(k);
                    if j < n {
                        assert(keys[j] == k);
                    }
                }
                if keys.contains(k) {
                    let j = keys.index_of(k);
                    assert(self.keys@[j] == k);
                }
                if k == key {
                    assert(self.keys@[n] == k);
                }
            }
            assert forall|k: Key| #[trigger] self@.contains_key(k) implies self@[k] == mid@.insert(
                key,
                state@,
            )[k] by {
                let j = self.keys@.index_of(k);
                self.lemma_index(j);
                if j < n {
                    mid.lemma_index(j);
                }
            }
            assert(self@ =~= mid@.insert(key, state@));
            assert(mid@.insert(key, state@) =~= old(self)@.insert(key, state@));
        }
    }
}

/// Keep track of all TCP connection state. For each connection we store
/// two [StreamState] entries.  One keyed by the TCP connection's [Key]
/// and one by its flipped ([Key::flip]) key.
pub struct TcpTracker {
    /// The id that the next connection gets.
    conn_ids: usize,
    /// Container for the [StreamState]s. Once the connection is fully established,
    /// both its [Key] and its flipped ([Key::flip]) key will have an entry.
    streams: FlowTable,
}

impl View for TcpTracker {
    type V = TrackerView;

    closed spec fn view(&self) -> TrackerView {
        TrackerView { next_id: self.conn_ids, streams: self.streams@ }
    }
}

impl TcpTracker {
    pub closed spec fn wf(&self) -> bool {
        self.streams.wf()
    }

    /// Create a new, empty, TCP tracker.
    pub fn new() -> (t: TcpTracker)
        ensures
            t.wf(),
            t@ == (TrackerView { next_id: 10, streams: Map::<Key, StreamView>::empty() }),
    {
        TcpTracker { conn_ids: 10, streams: FlowTable::new() }
    }

    /// Whether another connection can be given an id.
    pub fn has_ids(&self) -> (b: bool)
        ensures
            b == (self@.next_id < usize::MAX),
    {
        self.conn_ids < usize::MAX
    }

    /// Handle a TCP packet that goes from `src_addr` to `dest_addr`.
    pub fn handle(
        &mut self,
        src_addr: IpAddress,
        dest_addr: IpAddress,
        tcp: &TcpSegment,
        sink: &mut EventSink,
    )
        requires
            old(self).wf(),
            old(self)@.next_id < usize::MAX,
        ensures
            final(self).wf(),
            final(self)@ == old(self)@.handle(
                Key {
                    src: TcpAddr { ip: src_addr, port: tcp.source_port },
                    dest: TcpAddr { ip: dest_addr, port: tcp.destination_port },
                },
                *tcp,
            ).state,
            final(sink).pending() == old(sink).pending() + old(self)@.handle(
                Key {
                    src: TcpAddr { ip: src_addr, port: tcp.source_port },
                    dest: TcpAddr { ip: dest_addr, port: tcp.destination_port },
                },
                *tcp,
            ).events,
    {
        let key = Key {
            src: TcpAddr { ip: src_addr, port: tcp.source_port },
            dest: TcpAddr { ip: dest_addr, port: tcp.destination_port },
        };
        if tcp.syn && !tcp.ack {
            self.handle_syn(key, tcp, sink)
        } else if tcp.syn && tcp.ack {
            self.handle_syn_ack(key, tcp, sink)
        } else {
            self.handle_existing(key, tcp, sink)
        }
    }

    fn handle_syn(&mut self, key: Key, tcp: &TcpSegment, sink: &mut EventSink)
        requires
            old(self).wf(),
            old(self)@.next_id < usize::MAX,
        ensures
            final(self).wf(),
            final(self)@ == old(self)@.handle_syn(key, tcp.sequence_number).state,
            final(sink).pending() == old(sink).pending() + old(self)@.handle_syn(
                key,
                tcp.sequence_number,
            ).events,
    {
        let flipped = key.flip();
        if self.streams.contains_key(&key) || self.streams.contains_key(&flipped) {
            assert(sink.pending() + Seq::<EventView>::empty() =~= sink.pending());
            return ;
        }
        let seqno = tcp.sequence_number;
        let id = ConnectionId::new(self.conn_ids);
        self.conn_ids = self.conn_ids + 1;
        let upstream = StreamState::new(id, Direction::Upstream, seqno.wrapping_add(1));
        sink.emit_event(
            MapiEvent::Incoming { id, local: Addr::Tcp(key.dest), peer: Addr::Tcp(key.src) },
        );
        self.streams.insert(key, upstream);
        proof {
            assert(sink.pending() =~= old(sink).pending() + old(self)@.handle_syn(
                key,
                tcp.sequence_number,
            ).events);
        }
    }

    fn handle_syn_ack(&mut self, key: Key, tcp: &TcpSegment, sink: &mut EventSink)
        requires
            old(self).wf(),
        ensures
            final(self).wf(),
            final(self)@ == old(self)@.handle_syn_ack(key, tcp.sequence_number).state,
            final(sink).pending() == old(sink).pending() + old(self)@.handle_syn_ack(
                key,
                tcp.sequence_number,
            ).events,
    {
        let flipped = key.flip();
        let id = match self.streams.id_of(&flipped) {
            None => {
                assert(sink.pending() + Seq::<EventView>::empty() =~= sink.pending());
                return ;
            },
            Some(id) => id,
        };
        let seqno = tcp.sequence_number;
        let downstream = StreamState::new(id, Direction::Downstream, seqno.wrapping_add(1));
        sink.emit_event(MapiEvent::Connected { id, peer: Addr::Tcp(key.src) });
        self.streams.insert(key, downstream);
        proof {
            assert(sink.pending() =~= old(sink).pending() + old(self)@.handle_syn_ack(
                key,
                tcp.sequence_number,
            ).events);
        }
    }

    fn handle_existing(&mut self, key: Key, tcp: &TcpSegment, sink: &mut EventSink)
        requires
            old(self).wf(),
        ensures
            final(self).wf(),
            final(self)@ == old(self)@.handle_existing(
                key,
                tcp.sequence_number,
                tcp.fin,
                tcp.payload@,
            ).state,
            final(sink).pending() == old(sink).pending() + old(self)@.handle_existing(
                key,
                tcp.sequence_number,
                tcp.fin,
                tcp.payload@,
            ).events,
    {
        let ghost before = self@;
        let ghost emitted = sink.pending();
        proof {
            assert(emitted + Seq::<EventView>::empty() =~= emitted);
        }
        let mut stream = match self.streams.remove(&key) {
            None => {
                assert(self@.streams =~= before.streams);
                return ;
            },
            Some(stream) => stream,
        };
        let ghost first = stream@;
        let id = stream.id();
        let direction = stream.direction();
        let seqno = tcp.sequence_number;
        // Packets may arrive in the wrong order.
        // If this is exactly the packet we're waiting for, stream.reorder will
        // return it. If it's a future packet, it will store it.
        // If it's a past packet, it will drop it.
        let payload = match stream.reorder(seqno, tcp.fin, tcp.payload.as_slice()) {
            None => {
                self.streams.insert(key, stream);
                assert(self@.streams =~= before.streams.insert(key, stream@));
                return ;
            },
            Some(payload) => payload,
        };
        let ghost arrived = stream@;
        let limit = stream.waiting_len();
        Self::emit_data(id, direction, payload, sink);
        proof {
            assert(seq![tcp.payload@].drop_last() =~= Seq::<Seq<u8>>::empty());
            reveal_with_fuel(data_events, 2);
            assert(sink.pending() =~= emitted + data_events(id, direction, seq![tcp.payload@]));
            assert(seq![tcp.payload@] + Seq::<Seq<u8>>::empty() =~= seq![tcp.payload@]);
        }
        // If stream.reorder above returned this packet, it means it was exactly
        // the packet we needed right now. Packets do not always arrive in-order
        // so it's possible that the next packet is already in our cache.
        let ghost mut taken: Seq<Seq<u8>> = Seq::empty();
        loop
            invariant
                id == arrived.id,
                direction == arrived.dir,
                stream@.waiting.dom().finite(),
                taken.len() + stream@.waiting.dom().len() <= limit,
                arrived.ready_run(limit as nat) == taken + stream@.ready_run(
                    (limit - taken.len()) as nat,
                ),
                arrived.after_run(limit as nat) == stream@.after_run((limit - taken.len()) as nat),
                sink.pending() == emitted + data_events(
                    id,
                    direction,
                    seq![tcp.payload@] + taken,
                ),
            ensures
                stream@ == arrived.after_run(limit as nat),
                sink.pending() == emitted + data_events(
                    id,
                    direction,
                    seq![tcp.payload@] + arrived.ready_run(limit as nat),
                ),
            decreases stream@.waiting.dom().len(),
        {
            let ghost prior = stream@;
            let ghost sent = sink.pending();
            match stream.next_ready() {
                None => {
                    proof {
                        assert(taken + Seq::<Seq<u8>>::empty() =~= taken);
                    }
                    break ;
                },
                Some(next) => {
                    Self::emit_data(id, direction, next.as_slice(), sink);
                    proof {
                        reveal_with_fuel(data_events, 2);
                        assert(seq![next@].drop_last() =~= Seq::<Seq<u8>>::empty());
                        let all = seq![tcp.payload@] + taken.push(next@);
                        assert(all.drop_last() =~= seq![tcp.payload@] + taken);
                        assert(sink.pending() =~= emitted + data_events(id, direction, all));
                        assert(all.last() == next@);
                        assert(taken.push(next@) + prior.after_ready().ready_run(
                            (limit - taken.len() - 1) as nat,
                        ) =~= taken + (seq![next@] + prior.after_ready().ready_run(
                            (limit - taken.len() - 1) as nat,
                        )));
                        taken = taken.push(next@);
                    }
                },
            }
        }
        // Stream.finished is set by stream.reorder and stream.next_ready.
        if !stream.finished() {
            self.streams.insert(key, stream);
            assert(self@.streams =~= before.streams.insert(key, stream@));
            return ;
        }
        // This was the last packet of this direction of the TCP connection.
        // Report this and drop all state if the other direction has also finished.
        sink.emit_event(MapiEvent::ShutdownRead { id, direction });
        let flipped = key.flip();
        if flipped == key || self.streams.is_finished(&flipped) {
            let _ = self.streams.remove(&flipped);
            sink.emit_event(MapiEvent::End { id });
            proof {
                assert(self@.streams =~= before.streams.insert(key, stream@).remove(key).remove(
                    flipped,
                ));
            }
        } else {
            self.streams.insert(key, stream);
            assert(self@.streams =~= before.streams.insert(key, stream@));
        }
    }

    fn emit_data(id: ConnectionId, direction: Direction, payload: &[u8], sink: &mut EventSink)
        ensures
            final(sink).pending() == old(sink).pending() + data_events(id, direction, seq![payload@]),
    {
        proof {
            reveal_with_fuel(data_events, 2);
            assert(seq![payload@].drop_last() =~= Seq::<Seq<u8>>::empty());
        }
        if payload.len() > 0 {
            sink.emit_event(MapiEvent::Data { id, direction, data: Payload::new(payload) });
        }
        proof {
            assert(sink.pending() =~= old(sink).pending() + data_events(
                id,
                direction,
                seq![payload@],
            ));
        }
    }
}

} // verus!
