//! The proxy as a whole: its listeners, its connections, and how the tokens
//! of the poller are shared out among them.
//!
//! The [`Proxy`] owns no socket and no poller. Whoever does tells it what
//! has happened, and is told what to do.

use crate::address::{addr_views, MonetAddr, MonetAddrView};
use crate::error::{Error, ErrorView, IoError, IoErrorKind, IoErrorView};
use crate::event::{ConnectionId, EventSink, EventView, MapiEvent};
use crate::forward::{
    resolved_view, ConnectingView, Forwarder, ForwardingView, Input, Side, Step, Stepped, Todo,
};
use crate::network::{Addr, AddrView};
use crate::registered::{RegisteredView, Registration};
use crate::text::push_str;
use slab::Slab;
use vstd::prelude::*;
use vstd::string::StringSliceAdditionalSpecFns;

verus! {

/// The token that is reserved for shutting the proxy down.
pub const TRIGGER_SHUTDOWN_TOKEN: usize = usize::MAX;

/// What a token of the poller belongs to.
#[derive(Debug, Clone, Copy, PartialEq, Eq, Structural)]
pub enum Target {
    /// The trigger that shuts the proxy down.
    Shutdown,
    /// The listener with this number.
    Listener(usize),
    /// One of the two sockets of the connection in this slot.
    Forwarder { slot: usize, side: Side },
}

/// What the token `token` belongs to if there are `token_base` listeners:
/// the tokens below `token_base` belong to the listeners, each following
/// pair of tokens to the client and the server socket of a slot.
pub open spec fn target_of(token_base: usize, token: usize) -> Target {
    if token == TRIGGER_SHUTDOWN_TOKEN {
        Target::Shutdown
    } else if token < token_base {
        Target::Listener(token)
    } else {
        Target::Forwarder {
            slot: ((token - token_base) / 2) as usize,
            side: if (token - token_base) % 2 == 0 {
                Side::Client
            } else {
                Side::Server
            },
        }
    }
}

/// Whether the two tokens of `slot` exist, and are not the reserved one.
pub open spec fn has_tokens(token_base: usize, slot: usize) -> bool {
    token_base + 2 * slot + 1 < usize::MAX
}

/// What a token belongs to.
pub fn classify(token_base: usize, token: usize) -> (target: Target)
    ensures
        target == target_of(token_base, token),
{
    if token == TRIGGER_SHUTDOWN_TOKEN {
        Target::Shutdown
    } else if token < token_base {
        Target::Listener(token)
    } else {
        let offset = token - token_base;
        Target::Forwarder {
            slot: offset / 2,
            side: if offset % 2 == 0 {
                Side::Client
            } else {
                Side::Server
            },
        }
    }
}

/// The tokens of the client and the server socket of `slot`, if they exist.
pub fn forwarder_tokens(token_base: usize, slot: usize) -> (tokens: Option<(usize, usize)>)
    ensures
        tokens is Some <==> has_tokens(token_base, slot),
        tokens matches Some((client, server)) ==> client == token_base + 2 * slot && server
            == client + 1,
{
    if slot > (usize::MAX - 2) / 2 {
        return None;
    }
    let twice = 2 * slot;
    if token_base >= usize::MAX - 1 - twice {
        return None;
    }
    let client = token_base + twice;
    Some((client, client + 1))
}

/// The tokens of a slot lead back to the slot, each to its side; they are
/// neither the token of a listener nor the one that is reserved.
pub proof fn lemma_tokens_lead_back(token_base: usize, slot: usize)
    requires
        has_tokens(token_base, slot),
    ensures
        target_of(token_base, (token_base + 2 * slot) as usize) == (Target::Forwarder {
            slot,
            side: Side::Client,
        }),
        target_of(token_base, (token_base + 2 * slot + 1) as usize) == (Target::Forwarder {
            slot,
            side: Side::Server,
        }),
{
}

/// No two slots share a token.
pub proof fn lemma_tokens_apart(token_base: usize, slot1: usize, slot2: usize)
    requires
        has_tokens(token_base, slot1),
        has_tokens(token_base, slot2),
        slot1 != slot2,
    ensures
        token_base + 2 * slot1 != token_base + 2 * slot2,
        token_base + 2 * slot1 != token_base + 2 * slot2 + 1,
        token_base + 2 * slot1 + 1 != token_base + 2 * slot2,
        token_base + 2 * slot1 + 1 != token_base + 2 * slot2 + 1,
{
}

/// `slab::Slab`: a container that gives each value a key of its own and
/// uses the keys of values that have left again. Nothing of its inside is
/// seen here.
#[verifier::external_type_specification]
#[verifier::external_body]
#[verifier::reject_recursive_types(T)]
pub struct ExSlab<T>(Slab<T>);

/// The connections that a slab holds, each under its key.
pub uninterp spec fn slab_entries(slab: Slab<Forwarder>) -> Map<usize, Forwarder>;

/// The key under which a slab puts the next connection.
pub uninterp spec fn slab_next(slab: Slab<Forwarder>) -> usize;

/// `Slab::new`: a slab that holds nothing.
#[verifier::external_body]
fn slab_new() -> (slab: Slab<Forwarder>)
    ensures
        slab_entries(slab).dom() == Set::<usize>::empty(),
{
    Slab::new()
}

/// `Slab::vacant_key`: the key that the next insertion will use. Nothing is
/// held under it.
#[verifier::external_body]
fn slab_vacant_key(slab: &Slab<Forwarder>) -> (key: usize)
    ensures
        key == slab_next(*slab),
        !slab_entries(*slab).contains_key(key),
{
    slab.vacant_key()
}

/// `Slab::insert`: puts the value under the key that `vacant_key` gave, and
/// returns that key. What else is held stays.
#[verifier::external_body]
fn slab_insert(slab: &mut Slab<Forwarder>, value: Forwarder) -> (key: usize)
    ensures
        key == slab_next(*old(slab)),
        slab_entries(*final(slab)) == slab_entries(*old(slab)).insert(key, value),
{
    slab.insert(value)
}

/// `Slab::try_remove`: takes out and returns what is held under the key,
/// if anything. That key is then the one that the next insertion uses.
/// What else is held stays.
#[verifier::external_body]
fn slab_try_remove(slab: &mut Slab<Forwarder>, key: usize) -> (value: Option<Forwarder>)
    ensures
        value is Some <==> slab_entries(*old(slab)).contains_key(key),
        value matches Some(v) ==> v == slab_entries(*old(slab))[key] && slab_next(*final(slab))
            == key,
        slab_entries(*final(slab)) == slab_entries(*old(slab)).remove(key),
{
    slab.try_remove(key)
}

/// `Slab::get`: what is held under the key, if anything.
#[verifier::external_body]
fn slab_get(slab: &Slab<Forwarder>, key: usize) -> (value: Option<&Forwarder>)
    ensures
        value is Some <==> slab_entries(*slab).contains_key(key),
        value matches Some(v) ==> *v == slab_entries(*slab)[key],
{
    slab.get(key)
}

/// What came of an event for a connection.
#[derive(Debug)]
pub enum Handled {
    /// There is no connection in that slot.
    Unknown,
    /// The connection is not waiting for that input.
    Refused,
    /// The connection goes on: this is to be done next.
    Continue(Step),
    /// The connection has ended, or has been aborted. It has been taken
    /// out of its slot; this is to be done with the poller to take its
    /// sockets out of it, first for the client, then for the server.
    Ended(Registration, Registration),
}

/// What came of a connection that a listener has accepted.
#[derive(Debug, Clone, Copy, PartialEq, Eq, Structural)]
pub enum Accepted {
    /// The connection is being set up in this slot, with these tokens for
    /// its two sockets.
    Started { slot: usize, client_token: usize, server_token: usize },
    /// The connection could not be started, and has been aborted.
    Aborted,
}

/// The Proxy listens on a number of sockets, forwards the connections
/// to another server and reports on the traffic as a series of
/// [MapiEvent]s.
pub struct Proxy {
    /// Configured address to listen on. May map to multiple concrete addresses,
    /// the proxy will listen on all of them
    listen_addr: MonetAddr,
    /// Configured address to forward to. May map to multiple concrete addresses,
    /// the proxy will try each in turn.
    forward_addr: MonetAddr,
    /// Tokens below this number belong to listeners, the rest belong
    /// to forwarded connections.
    token_base: usize,
    /// The addresses of the listeners. Token `t` maps to `listeners[t]`.
    listeners: Vec<Addr>,
    /// Holds ownership of the forwarders. Token `t + self.token_base` maps to
    /// `forwarders[t/2]`.
    forwarders: Slab<Forwarder>,
    /// The id that the next connection gets.
    ids: usize,
    /// This is where events are reported.
    event_sink: EventSink,
}

impl Proxy {
    /// The connections, each in its slot.
    pub closed spec fn forwarders(&self) -> Map<usize, Forwarder> {
        slab_entries(self.forwarders)
    }

    /// The addresses of the listeners.
    pub closed spec fn listeners(&self) -> Seq<AddrView> {
        addr_views(self.listeners@)
    }

    /// Number of tokens that are set aside for listeners.
    pub closed spec fn token_base(&self) -> usize {
        self.token_base
    }

    /// The id that the next connection gets.
    pub closed spec fn next_id(&self) -> usize {
        self.ids
    }

    /// The events that have been reported and not yet taken out.
    pub closed spec fn pending(&self) -> Seq<EventView> {
        self.event_sink.pending()
    }

    pub closed spec fn listen_addr(&self) -> MonetAddrView {
        self.listen_addr@
    }

    pub closed spec fn forward_addr(&self) -> MonetAddrView {
        self.forward_addr@
    }

    /// The slot that the next connection gets.
    pub closed spec fn next_slot(&self) -> usize {
        slab_next(self.forwarders)
    }

    /// How the setting up of a connection starts, for a client that has
    /// come in from `peer` and has been given `id`.
    pub open spec fn starting(
        &self,
        id: ConnectionId,
        peer: AddrView,
        resolved: Result<Seq<AddrView>, IoErrorView>,
    ) -> Stepped<ConnectingView> {
        ConnectingView::start(
            id,
            self.forward_addr().text(),
            resolved,
            RegisteredView::fresh(
                peer.text(),
                (self.token_base() + 2 * self.next_slot()) as usize,
            ),
            peer is Unix,
            (self.token_base() + 2 * self.next_slot() + 1) as usize,
        )
    }

    /// Whether a connection can be started: there are tokens for its slot,
    /// and the server has an address.
    pub open spec fn starts(
        &self,
        id: ConnectionId,
        peer: AddrView,
        resolved: Result<Seq<AddrView>, IoErrorView>,
    ) -> bool {
        has_tokens(self.token_base(), self.next_slot()) && self.starting(
            id,
            peer,
            resolved,
        ).result is Ok
    }

    /// The events that are reported when a connection is started: none if
    /// it can be, else why it cannot and that it has been aborted.
    pub open spec fn start_events(
        &self,
        id: ConnectionId,
        peer: AddrView,
        resolved: Result<Seq<AddrView>, IoErrorView>,
    ) -> Seq<EventView> {
        if !has_tokens(self.token_base(), self.next_slot()) {
            seq![
                EventView::Aborted {
                    id,
                    error: ErrorView::Other("no tokens left for the connection".spec_bytes()),
                },
            ]
        } else if self.starting(id, peer, resolved).result is Err {
            self.starting(id, peer, resolved).events.push(
                EventView::Aborted { id, error: ErrorView::Connect },
            )
        } else {
            self.starting(id, peer, resolved).events
        }
    }

    /// Every connection is in a state that it can be in.
    pub closed spec fn wf(&self) -> bool {
        forall|slot: usize| #[trigger]
            slab_entries(self.forwarders).contains_key(slot) ==> slab_entries(
                self.forwarders,
            )[slot].wf()
    }

    /// What stays as it is in all that happens after the listeners are set
    /// up.
    pub open spec fn same_setup(&self, other: &Proxy) -> bool {
        &&& self.listeners() == other.listeners()
        &&& self.token_base() == other.token_base()
        &&& self.listen_addr() == other.listen_addr()
        &&& self.forward_addr() == other.forward_addr()
    }

    /// Create a new Proxy which is to listen on the sockets denoted by
    /// `listen_addr` and to forward to `forward_addr`.
    pub fn new(listen_addr: MonetAddr, forward_addr: MonetAddr) -> (proxy: Proxy)
        ensures
            proxy.wf(),
            proxy.listeners() == Seq::<AddrView>::empty(),
            proxy.forwarders() == Map::<usize, Forwarder>::empty(),
            proxy.next_id() == 10,
            proxy.pending() == Seq::<EventView>::empty(),
            proxy.listen_addr() == listen_addr@,
            proxy.forward_addr() == forward_addr@,
    {
        let proxy = Proxy {
            listen_addr,
            forward_addr,
            token_base: usize::MAX,
            listeners: Vec::new(),
            forwarders: slab_new(),
            ids: 10,
            event_sink: EventSink::new(),
        };
        assert(proxy.listeners() =~= Seq::<AddrView>::empty());
        assert(proxy.forwarders() =~= Map::<usize, Forwarder>::empty());
        proxy
    }

    /// Take out the events that have been reported, oldest first.
    pub fn take_events(&mut self) -> (events: Vec<MapiEvent>)
        ensures
            events@.map_values(|e: MapiEvent| e@) == old(self).pending(),
            final(self).pending() == Seq::<EventView>::empty(),
            final(self).forwarders() == old(self).forwarders(),
            final(self).next_id() == old(self).next_id(),
            final(self).same_setup(old(self)),
    {
        self.event_sink.take()
    }

    /// The address to listen on, as it was configured.
    pub fn listen_addr_ref(&self) -> (addr: &MonetAddr)
        ensures
            addr@ == self.listen_addr(),
    {
        &self.listen_addr
    }

    /// The address to forward to, as it was configured.
    pub fn forward_addr_ref(&self) -> (addr: &MonetAddr)
        ensures
            addr@ == self.forward_addr(),
    {
        &self.forward_addr
    }

    /// Check what the address to listen on has been resolved to: it must
    /// have been resolved, and to one address at least.
    pub fn add_listeners(&self, resolved: Result<Vec<Addr>, IoError>) -> (r: Result<Vec<Addr>, Error>)
        ensures
            r is Ok <==> (resolved matches Ok(addrs) && addrs@.len() > 0),
            r matches Ok(addrs) ==> resolved == Ok::<Vec<Addr>, IoError>(addrs),
            r matches Err(e) ==> e@ == ErrorView::StartListening(
                self.listen_addr().text(),
                match resolved {
                    Err(e) => e@,
                    Ok(_) => IoErrorView {
                        kind: IoErrorKind::NotFound,
                        message: "listen address not found".spec_bytes(),
                    },
                },
            ),
    {
        match resolved {
            Err(e) => Err(Error::StartListening(self.listen_addr.text(), e)),
            Ok(addrs) => {
                if addrs.len() == 0 {
                    let err = IoError::new(IoErrorKind::NotFound, "listen address not found");
                    return Err(Error::StartListening(self.listen_addr.text(), err));
                }
                Ok(addrs)
            },
        }
    }

    /// The token under which the next listener is to be put into the
    /// poller.
    pub fn next_listener_token(&self) -> (token: usize)
        ensures
            token == self.listeners().len(),
    {
        self.listeners.len()
    }

    /// Note the outcome of binding a listener to `addr` and putting it into
    /// the poller. A listener that is in place is reported.
    pub fn add_tcp_listener(&mut self, addr: Addr, bound: Result<(), IoError>) -> (r: Result<
        (),
        Error,
    >)
        ensures
            final(self).forwarders() == old(self).forwarders(),
            final(self).next_id() == old(self).next_id(),
            final(self).listen_addr() == old(self).listen_addr(),
            final(self).forward_addr() == old(self).forward_addr(),
            match bound {
                Ok(()) => {
                    &&& r is Ok
                    &&& final(self).listeners() == old(self).listeners().push(addr@)
                    &&& final(self).pending() == old(self).pending().push(
                        EventView::BoundPort(addr@),
                    )
                },
                Err(e) => {
                    &&& r matches Err(err) && err@ == ErrorView::StartListening(addr@.text(), e@)
                    &&& final(self).listeners() == old(self).listeners()
                    &&& final(self).pending() == old(self).pending()
                },
            },
    {
        match bound {
            Err(e) => Err(Error::StartListening(addr.text(), e)),
            Ok(()) => {
                self.event_sink.emit_bound(addr.duplicate());
                self.listeners.push(addr);
                assert(self.listeners() =~= old(self).listeners().push(addr@));
                Ok(())
            },
        }
    }

    /// All listeners are in place: the tokens from their number on are for
    /// connections.
    pub fn listeners_ready(&mut self)
        ensures
            final(self).token_base() == old(self).listeners().len(),
            final(self).listeners() == old(self).listeners(),
            final(self).forwarders() == old(self).forwarders(),
            final(self).next_id() == old(self).next_id(),
            final(self).pending() == old(self).pending(),
            final(self).listen_addr() == old(self).listen_addr(),
            final(self).forward_addr() == old(self).forward_addr(),
    {
        let n = self.listeners.len();
        self.token_base = n;
    }

    /// What a token that the poller has reported belongs to.
    pub fn target(&self, token: usize) -> (target: Target)
        ensures
            target == target_of(self.token_base(), token),
    {
        classify(self.token_base, token)
    }

    /// Whether another connection can be given an id.
    pub fn has_ids(&self) -> (b: bool)
        ensures
            b == (self.next_id() < usize::MAX),
    {
        self.ids < usize::MAX
    }

    /// Number of listeners.
    pub fn listener_count(&self) -> (n: usize)
        ensures
            n == self.listeners().len(),
    {
        self.listeners.len()
    }

    /// Note the outcome of accepting a connection on listener `n`: the
    /// address of the peer, or why there is none. `resolved` is what the
    /// address to forward to has been resolved to.
    ///
    /// If nothing was waiting to be accepted, nothing happens. Any other
    /// failure ends the proxy. A connection that has been accepted gets an
    /// id and is reported; then it is started, or it is aborted if the
    /// server has no address or no tokens are left for it.
    pub fn handle_listener_event(
        &mut self,
        n: usize,
        accepted: Result<Addr, IoError>,
        resolved: Result<Vec<Addr>, IoError>,
    ) -> (r: Result<Option<Accepted>, Error>)
        requires
            old(self).wf(),
            n < old(self).listeners().len(),
            old(self).next_id() < usize::MAX,
        ensures
            final(self).wf(),
            final(self).same_setup(old(self)),
            match accepted {
                Err(e) => {
                    &&& final(self).pending() == old(self).pending()
                    &&& final(self).forwarders() == old(self).forwarders()
                    &&& final(self).next_id() == old(self).next_id()
                    &&& if e@.kind == IoErrorKind::WouldBlock {
                        r == Ok::<Option<Accepted>, Error>(None)
                    } else {
                        r matches Err(err) && err@ == ErrorView::Accept(
                            old(self).listeners()[n as int],
                            e@,
                        )
                    }
                },
                Ok(peer) => {
                    let id = ConnectionId(old(self).next_id());
                    let incoming = EventView::Incoming {
                        id,
                        local: old(self).listeners()[n as int],
                        peer: peer@,
                    };
                    &&& final(self).next_id() == old(self).next_id() + 1
                    &&& r matches Ok(Some(outcome))
                    &&& final(self).pending() == old(self).pending().push(incoming) + old(self).start_events(id, peer@, resolved_view(resolved))
                    &&& outcome is Started <==> old(self).starts(id, peer@, resolved_view(resolved))
                    &&& outcome matches Accepted::Started { slot, client_token, server_token } ==> {
                        &&& slot == old(self).next_slot()
                        &&& !old(self).forwarders().contains_key(slot)
                        &&& final(self).forwarders() == old(self).forwarders().insert(
                            slot,
                            final(self).forwarders()[slot],
                        )
                        &&& client_token == old(self).token_base() + 2 * slot
                        &&& server_token == client_token + 1
                        &&& final(self).forwarders()[slot].spec_id() == id
                        &&& final(self).forwarders()[slot]@ == ForwardingView::Connecting(
                            old(self).starting(id, peer@, resolved_view(resolved)).state,
                        )
                    }
                    &&& outcome is Aborted ==> final(self).forwarders() == old(self).forwarders()
                },
            },
    {
        proof {
            assert(addr_views(self.listeners@).len() == self.listeners@.len());
        }
        let peer = match accepted {
            Ok(peer) => peer,
            Err(e) => {
                if e.would_block() {
                    return Ok(None);
                }
                return Err(Error::Accept(self.listeners[n].duplicate(), e));
            },
        };
        let id = ConnectionId::new(self.ids);
        self.ids = self.ids + 1;
        let local = self.listeners[n].duplicate();
        let ghost before = self.event_sink.pending();
        let ghost incoming = EventView::Incoming { id, local: local@, peer: peer@ };
        {
            let mut sink = self.event_sink.connection_sink(id);
            sink.emit_incoming(local, peer.duplicate());
        }
        assert(self.forwarders == old(self).forwarders);
        assert(self.event_sink.pending() == before.push(incoming));
        let outcome = self.start_forwarder(id, peer, resolved);
        Ok(Some(outcome))
    }

    /// Start a connection, or abort it if it cannot be started.
    fn start_forwarder(
        &mut self,
        id: ConnectionId,
        peer: Addr,
        resolved: Result<Vec<Addr>, IoError>,
    ) -> (outcome: Accepted)
        requires
            old(self).wf(),
        ensures
            final(self).wf(),
            final(self).same_setup(old(self)),
            final(self).next_id() == old(self).next_id(),
            final(self).pending() == old(self).pending() + old(self).start_events(
                id,
                peer@,
                resolved_view(resolved),
            ),
            outcome is Started <==> old(self).starts(id, peer@, resolved_view(resolved)),
            outcome matches Accepted::Started { slot, client_token, server_token } ==> {
                &&& slot == old(self).next_slot()
                &&& !old(self).forwarders().contains_key(slot)
                &&& final(self).forwarders() == old(self).forwarders().insert(
                    slot,
                    final(self).forwarders()[slot],
                )
                &&& client_token == old(self).token_base() + 2 * slot
                &&& server_token == client_token + 1
                &&& final(self).forwarders()[slot].spec_id() == id
                &&& final(self).forwarders()[slot]@ == ForwardingView::Connecting(
                    old(self).starting(id, peer@, resolved_view(resolved)).state,
                )
            },
            outcome is Aborted ==> final(self).forwarders() == old(self).forwarders(),
    {
        let ghost before = self.event_sink.pending();
        let ghost held = slab_entries(self.forwarders);
        let n = slab_vacant_key(&self.forwarders);
        let (client_token, server_token) = match forwarder_tokens(self.token_base, n) {
            Some(tokens) => tokens,
            None => {
                let mut message: Vec<u8> = Vec::new();
                push_str(&mut message, "no tokens left for the connection");
                assert(message@ =~= "no tokens left for the connection".spec_bytes());
                self.abort(id, Error::Other(message));
                proof {
                    assert(self.event_sink.pending() =~= before + old(self).start_events(
                        id,
                        peer@,
                        resolved_view(resolved),
                    ));
                }
                return Accepted::Aborted;
            },
        };
        let new = {
            let mut sink = self.event_sink.connection_sink(id);
            Forwarder::new(&mut sink, peer, client_token, &self.forward_addr, resolved, server_token)
        };
        match new {
            Ok(forwarder) => {
                let slot = slab_insert(&mut self.forwarders, forwarder);
                proof {
                    assert(slab_entries(self.forwarders) =~= held.insert(
                        slot,
                        slab_entries(self.forwarders)[slot],
                    ));
                }
                Accepted::Started { slot, client_token, server_token }
            },
            Err(e) => {
                self.abort(id, e);
                proof {
                    assert(self.event_sink.pending() =~= before + old(self).start_events(
                        id,
                        peer@,
                        resolved_view(resolved),
                    ));
                }
                Accepted::Aborted
            },
        }
    }

    /// Report that a connection has been aborted.
    fn abort(&mut self, id: ConnectionId, error: Error)
        ensures
            final(self).pending() == old(self).pending().push(
                EventView::Aborted { id, error: error@ },
            ),
            final(self).forwarders == old(self).forwarders,
            final(self).same_setup(old(self)),
            final(self).next_id() == old(self).next_id(),
    {
        let mut sink = self.event_sink.connection_sink(id);
        sink.emit_aborted(error);
    }

    /// The connection in a slot, if there is one.
    pub fn forwarder(&self, slot: usize) -> (f: Option<&Forwarder>)
        requires
            self.wf(),
        ensures
            f is Some <==> self.forwarders().contains_key(slot),
            f matches Some(forwarder) ==> *forwarder == self.forwarders()[slot] && forwarder.wf(),
    {
        slab_get(&self.forwarders, slot)
    }

    /// Take the connection in `slot` one step further, with what has come
    /// of the step before.
    ///
    /// A connection that ends is reported as ended, one that fails as
    /// aborted; either way it is taken out of its slot.
    pub fn handle_forward_event(&mut self, slot: usize, input: Input) -> (handled: Handled)
        requires
            old(self).wf(),
        ensures
            final(self).wf(),
            final(self).same_setup(old(self)),
            final(self).next_id() == old(self).next_id(),
            handled is Unknown <==> !old(self).forwarders().contains_key(slot),
            handled is Refused <==> old(self).forwarders().contains_key(slot) && !old(self).forwarders()[slot]@.accepts(input@),
            handled is Unknown || handled is Refused ==> final(self).forwarders() == old(self).forwarders() && final(self).pending() == old(self).pending(),
            handled matches Handled::Continue(step) ==> {
                let before = old(self).forwarders()[slot];
                let out = before@.step(before.spec_id(), input@);
                &&& out.result == Ok::<Step, ErrorView>(step)
                &&& step.next != Todo::Finished
                &&& final(self).forwarders().dom() == old(self).forwarders().dom()
                &&& final(self).forwarders()[slot]@ == out.state
                &&& final(self).forwarders()[slot].spec_id() == before.spec_id()
                &&& final(self).pending() == old(self).pending() + out.events
            },
            handled is Ended ==> {
                let before = old(self).forwarders()[slot];
                let out = before@.step(before.spec_id(), input@);
                &&& final(self).forwarders() == old(self).forwarders().remove(slot)
                &&& final(self).pending() == (old(self).pending() + out.events).push(
                    match out.result {
                        Ok(_) => EventView::End { id: before.spec_id() },
                        Err(error) => EventView::Aborted { id: before.spec_id(), error },
                    },
                )
                &&& out.result matches Ok(step) ==> step.next == Todo::Finished
            },
            handled matches Handled::Ended(client, server) ==> {
                let before = old(self).forwarders()[slot];
                let out = before@.step(before.spec_id(), input@);
                &&& client@ == out.state.client().cleared().planned()
                &&& server@ == out.state.server().cleared().planned()
            },
    {
        let ghost held = slab_entries(self.forwarders);
        let mut forwarder = match slab_try_remove(&mut self.forwarders, slot) {
            None => {
                assert(slab_entries(self.forwarders) =~= held);
                return Handled::Unknown;
            },
            Some(forwarder) => forwarder,
        };
        if !forwarder.accepts(&input) {
            let key = slab_insert(&mut self.forwarders, forwarder);
            assert(slab_entries(self.forwarders) =~= held);
            return Handled::Refused;
        }
        let id = forwarder.id();
        let mut sink = self.event_sink.connection_sink(id);
        // When the poller notifies us of readiness we may only re-enter it
        // when we have observed that a socket would block. The connection
        // says when to wait. It also says whether it needs to stay around
        // or whether it can be removed.
        match forwarder.handle_event(&mut sink, input) {
            Ok(step) => {
                if step.next != Todo::Finished {
                    let key = slab_insert(&mut self.forwarders, forwarder);
                    proof {
                        assert(slab_entries(self.forwarders).dom() =~= held.dom());
                    }
                    return Handled::Continue(step);
                }
                sink.emit_end();
            },
            Err(e) => {
                sink.emit_aborted(e);
            },
        }
        // Removal
        let (client, server) = forwarder.deregister();
        Handled::Ended(client, server)
    }
}

} // verus!
