//! From events to the transcript.
//!
//! [`State`] follows the connections that the events speak of and renders
//! every event: what happens to a connection as a one line message, its data
//! as frames.

use crate::accumulator::{Accumulator, AccumulatorView, Level};
use crate::event::{receiver_of, sender_of, ConnectionId, Direction, EventView, MapiEvent};
use crate::render::{IdStream, Renderer, RendererView};
use crate::text::{decimal_digits, push_bytes, push_decimal, push_str};
use std::collections::HashMap;
use vstd::prelude::*;
use vstd::string::StringSliceAdditionalSpecFns;

verus! {

broadcast use vstd::std_specs::hash::group_hash_axioms;

/// The connections that are being followed, as the contracts see them.
pub struct StateView {
    pub level: Level,
    pub force_binary: bool,
    /// For each connection, by the number of its id, its upstream and its
    /// downstream direction.
    pub accs: Map<usize, (AccumulatorView, AccumulatorView)>,
}

/// The text of the message that is shown for an event, apart from what is
/// shown for the data of a connection.
pub open spec fn event_text(event: EventView) -> Seq<u8> {
    match event {
        EventView::BoundPort(port) => "LISTEN on port ".spec_bytes() + port.text(),
        EventView::Incoming { local, peer, .. } => "INCOMING on ".spec_bytes() + local.text()
            + " from ".spec_bytes() + peer.text(),
        EventView::Connecting { remote, .. } => "CONNECTING to ".spec_bytes() + remote.text(),
        EventView::Connected { .. } => "CONNECTED".spec_bytes(),
        EventView::ConnectFailed { remote, error, immediately, .. } => "CONNECT FAILED".spec_bytes()
            + (if immediately {
            " immediately".spec_bytes()
        } else {
            Seq::empty()
        }) + ": ".spec_bytes() + remote + ": ".spec_bytes() + error.message,
        EventView::End { .. } => "ENDED".spec_bytes(),
        EventView::Aborted { error, .. } => "ABORTED: ".spec_bytes() + error.message(),
        EventView::Data { .. } => Seq::empty(),
        EventView::ShutdownRead { direction, .. } => sender_of(direction).spec_bytes()
            + " stopped sending".spec_bytes(),
        EventView::ShutdownWrite { direction, discard, .. } => receiver_of(direction).spec_bytes()
            + " has stopped receiving data, discarding ".spec_bytes() + decimal_digits(
            discard as nat,
        ) + " bytes".spec_bytes(),
    }
}

/// The connection and direction that the message for an event is marked
/// with.
pub open spec fn event_mark(event: EventView) -> IdStream {
    match event {
        EventView::BoundPort(_) => IdStream(None, None),
        EventView::Incoming { id, .. } => IdStream(Some(id), None),
        EventView::Connecting { id, .. } => IdStream(Some(id), None),
        EventView::Connected { id, .. } => IdStream(Some(id), None),
        EventView::ConnectFailed { id, .. } => IdStream(Some(id), None),
        EventView::End { id } => IdStream(Some(id), None),
        EventView::Aborted { id, .. } => IdStream(Some(id), None),
        EventView::Data { id, direction, .. } => IdStream(Some(id), Some(direction)),
        EventView::ShutdownRead { id, direction } => IdStream(Some(id), Some(direction)),
        EventView::ShutdownWrite { id, direction, .. } => IdStream(Some(id), Some(direction)),
    }
}

/// The direction of a pair.
pub open spec fn pick(pair: (AccumulatorView, AccumulatorView), direction: Direction) -> AccumulatorView {
    match direction {
        Direction::Upstream => pair.0,
        Direction::Downstream => pair.1,
    }
}

/// The pair with one direction replaced.
pub open spec fn replaced(
    pair: (AccumulatorView, AccumulatorView),
    direction: Direction,
    acc: AccumulatorView,
) -> (AccumulatorView, AccumulatorView) {
    match direction {
        Direction::Upstream => (acc, pair.1),
        Direction::Downstream => (pair.0, acc),
    }
}

impl StateView {
    /// Whether an event can follow on what has been seen: a connection comes
    /// in once, and only a connection that has come in and has not ended
    /// can carry data, be shut down or end.
    pub open spec fn accepts(self, event: EventView) -> bool {
        match event {
            EventView::Incoming { id, .. } => !self.accs.contains_key(id.0),
            EventView::End { id } => self.accs.contains_key(id.0),
            EventView::Aborted { id, .. } => self.accs.contains_key(id.0),
            EventView::Data { id, .. } => self.accs.contains_key(id.0),
            EventView::ShutdownRead { id, .. } => self.accs.contains_key(id.0),
            _ => true,
        }
    }

    /// What becomes of the connections and of the renderer when an event
    /// is handled.
    pub open spec fn handle(self, r: RendererView, event: EventView) -> (StateView, RendererView) {
        let said = r.message(event_mark(event), event_text(event));
        match event {
            EventView::Incoming { id, peer, .. } => (
                StateView {
                    accs: self.accs.insert(
                        id.0,
                        (
                            AccumulatorView::initial(
                                id,
                                Direction::Upstream,
                                self.level,
                                self.force_binary,
                                peer is Unix,
                            ),
                            AccumulatorView::initial(
                                id,
                                Direction::Downstream,
                                self.level,
                                self.force_binary,
                                false,
                            ),
                        ),
                    ),
                    ..self
                },
                said,
            ),
            EventView::End { id } => (StateView { accs: self.accs.remove(id.0), ..self }, said),
            EventView::Aborted { id, .. } => (
                StateView { accs: self.accs.remove(id.0), ..self },
                said,
            ),
            EventView::Data { id, direction, data } => {
                let pair = self.accs[id.0];
                let handled = pick(pair, direction).handle_data(r, data);
                (
                    StateView {
                        accs: self.accs.insert(id.0, replaced(pair, direction, handled.0)),
                        ..self
                    },
                    handled.1,
                )
            },
            EventView::ShutdownRead { id, direction } => {
                let acc = pick(self.accs[id.0], direction);
                if acc.analyzer.at_rest() {
                    (self, said)
                } else {
                    (
                        self,
                        r.message(event_mark(event), acc.incomplete().message).message(
                            event_mark(event),
                            event_text(event),
                        ),
                    )
                }
            },
            _ => (self, said),
        }
    }
}

/// Follows the connections that the events speak of, and renders every
/// event.
#[derive(Debug)]
pub struct State {
    level: Level,
    force_binary: bool,
    accs: HashMap<usize, (Accumulator, Accumulator)>,
}

impl View for State {
    type V = StateView;

    closed spec fn view(&self) -> StateView {
        StateView {
            level: self.level,
            force_binary: self.force_binary,
            accs: self.accs@.map_values(|p: (Accumulator, Accumulator)| (p.0@, p.1@)),
        }
    }
}

impl State {
    /// Every direction that is followed is in a state that it can be in.
    pub closed spec fn wf(&self) -> bool {
        forall|k: usize| #[trigger]
            self.accs@.contains_key(k) ==> self.accs@[k].0.wf() && self.accs@[k].1.wf()
    }

    pub fn new(level: Level, force_binary: bool) -> (s: State)
        ensures
            s.wf(),
            s@ == (StateView {
                level,
                force_binary,
                accs: Map::<usize, (AccumulatorView, AccumulatorView)>::empty(),
            }),
    {
        let s = State { level, force_binary, accs: HashMap::new() };
        assert(s@.accs =~= Map::<usize, (AccumulatorView, AccumulatorView)>::empty());
        s
    }

    /// Whether `event` can follow on what has been seen.
    pub fn accepts(&self, event: &MapiEvent) -> (b: bool)
        ensures
            b == self@.accepts(event@),
    {
        proof {
            let f = |p: (Accumulator, Accumulator)| (p.0@, p.1@);
            assert(self.accs@.map_values(f).dom() =~= self.accs@.dom());
        }
        match event {
            MapiEvent::Incoming { id, .. } => !self.accs.contains_key(&id.0),
            MapiEvent::End { id } => self.accs.contains_key(&id.0),
            MapiEvent::Aborted { id, .. } => self.accs.contains_key(&id.0),
            MapiEvent::Data { id, .. } => self.accs.contains_key(&id.0),
            MapiEvent::ShutdownRead { id, .. } => self.accs.contains_key(&id.0),
            _ => true,
        }
    }

    /// The text of the message that is shown for an event.
    pub fn event_text(event: &MapiEvent) -> (text: Vec<u8>)
        ensures
            text@ == event_text(event@),
    {
        let mut text: Vec<u8> = Vec::new();
        match event {
            MapiEvent::BoundPort(port) => {
                push_str(&mut text, "LISTEN on port ");
                port.push_text(&mut text);
            },
            MapiEvent::Incoming { local, peer, .. } => {
                push_str(&mut text, "INCOMING on ");
                local.push_text(&mut text);
                push_str(&mut text, " from ");
                peer.push_text(&mut text);
            },
            MapiEvent::Connecting { remote, .. } => {
                push_str(&mut text, "CONNECTING to ");
                remote.push_text(&mut text);
            },
            MapiEvent::Connected { .. } => {
                push_str(&mut text, "CONNECTED");
            },
            MapiEvent::ConnectFailed { remote, error, immediately, .. } => {
                push_str(&mut text, "CONNECT FAILED");
                if *immediately {
                    push_str(&mut text, " immediately");
                }
                let ghost start = text@;
                push_str(&mut text, ": ");
                push_bytes(&mut text, remote.as_slice());
                push_str(&mut text, ": ");
                push_bytes(&mut text, error.message.as_slice());
                proof {
                    assert(start =~= "CONNECT FAILED".spec_bytes() + (if *immediately {
                        " immediately".spec_bytes()
                    } else {
                        Seq::empty()
                    }));
                }
            },
            MapiEvent::End { .. } => {
                push_str(&mut text, "ENDED");
            },
            MapiEvent::Aborted { error, .. } => {
                push_str(&mut text, "ABORTED: ");
                error.push_message(&mut text);
            },
            MapiEvent::Data { .. } => {},
            MapiEvent::ShutdownRead { direction, .. } => {
                push_str(&mut text, direction.sender());
                push_str(&mut text, " stopped sending");
            },
            MapiEvent::ShutdownWrite { direction, discard, .. } => {
                push_str(&mut text, direction.receiver());
                push_str(&mut text, " has stopped receiving data, discarding ");
                push_decimal(&mut text, *discard);
                push_str(&mut text, " bytes");
            },
        }
        proof {
            assert(text@ =~= event_text(event@));
        }
        text
    }

    /// Show the one line message for an event.
    fn say(event: &MapiEvent, renderer: &mut Renderer)
        ensures
            final(renderer)@ == old(renderer)@.message(event_mark(event@), event_text(event@)),
    {
        let text = Self::event_text(event);
        match event {
            MapiEvent::BoundPort(_) => renderer.message(None, None, text.as_slice()),
            MapiEvent::Incoming { id, .. } => renderer.message(Some(*id), None, text.as_slice()),
            MapiEvent::Connecting { id, .. } => renderer.message(Some(*id), None, text.as_slice()),
            MapiEvent::Connected { id, .. } => renderer.message(Some(*id), None, text.as_slice()),
            MapiEvent::ConnectFailed { id, .. } => renderer.message(
                Some(*id),
                None,
                text.as_slice(),
            ),
            MapiEvent::End { id } => renderer.message(Some(*id), None, text.as_slice()),
            MapiEvent::Aborted { id, .. } => renderer.message(Some(*id), None, text.as_slice()),
            MapiEvent::Data { id, direction, .. } => renderer.message(
                Some(*id),
                Some(*direction),
                text.as_slice(),
            ),
            MapiEvent::ShutdownRead { id, direction } => renderer.message(
                Some(*id),
                Some(*direction),
                text.as_slice(),
            ),
            MapiEvent::ShutdownWrite { id, direction, .. } => renderer.message(
                Some(*id),
                Some(*direction),
                text.as_slice(),
            ),
        }
    }

    /// Show the data of a connection.
    fn handle_data(
        &mut self,
        id: ConnectionId,
        direction: Direction,
        data: &[u8],
        renderer: &mut Renderer,
    )
        requires
            old(self).wf(),
            old(self)@.accs.contains_key(id.0),
        ensures
            final(self).wf(),
            final(self)@ == (StateView {
                accs: old(self)@.accs.insert(
                    id.0,
                    replaced(
                        old(self)@.accs[id.0],
                        direction,
                        pick(old(self)@.accs[id.0], direction).handle_data(old(renderer)@, data@).0,
                    ),
                ),
                ..old(self)@
            }),
            final(renderer)@ == pick(old(self)@.accs[id.0], direction).handle_data(
                old(renderer)@,
                data@,
            ).1,
    {
        let ghost f = |p: (Accumulator, Accumulator)| (p.0@, p.1@);
        let ghost before = self.accs@;
        proof {
            assert(before.map_values(f).dom() =~= before.dom());
        }
        let (mut upstream, mut downstream) = match self.accs.remove(&id.0) {
            Some(pair) => pair,
            None => {
                return ;
            },
        };
        match direction {
            Direction::Upstream => upstream.handle_data(data, renderer),
            Direction::Downstream => downstream.handle_data(data, renderer),
        }
        self.accs.insert(id.0, (upstream, downstream));
        proof {
            assert(self.accs@.map_values(f) =~= before.map_values(f).insert(
                id.0,
                (upstream@, downstream@),
            ));
        }
    }

    /// Render an event, and keep track of the connection that it is about.
    pub fn handle(&mut self, event: &MapiEvent, renderer: &mut Renderer)
        requires
            old(self).wf(),
            old(self)@.accepts(event@),
        ensures
            final(self).wf(),
            (final(self)@, final(renderer)@) == old(self)@.handle(old(renderer)@, event@),
    {
        match event {
            MapiEvent::Data { id, direction, data } => {
                self.handle_data(*id, *direction, data.as_slice(), renderer);
            },
            MapiEvent::ShutdownRead { id, direction } => {
                self.check_incomplete(*id, *direction, renderer);
                Self::say(event, renderer);
            },
            MapiEvent::Incoming { id, peer, .. } => {
                Self::say(event, renderer);
                self.add_connection(id, peer.is_unix());
            },
            MapiEvent::End { id } => {
                Self::say(event, renderer);
                self.remove_connection(id);
            },
            MapiEvent::Aborted { id, .. } => {
                Self::say(event, renderer);
                self.remove_connection(id);
            },
            _ => {
                Self::say(event, renderer);
            },
        }
    }

    fn add_connection(&mut self, id: &ConnectionId, unix_client: bool)
        requires
            old(self).wf(),
        ensures
            final(self).wf(),
            final(self)@ == (StateView {
                accs: old(self)@.accs.insert(
                    id.0,
                    (
                        AccumulatorView::initial(
                            *id,
                            Direction::Upstream,
                            old(self)@.level,
                            old(self)@.force_binary,
                            unix_client,
                        ),
                        AccumulatorView::initial(
                            *id,
                            Direction::Downstream,
                            old(self)@.level,
                            old(self)@.force_binary,
                            false,
                        ),
                    ),
                ),
                ..old(self)@
            }),
    {
        let ghost f = |p: (Accumulator, Accumulator)| (p.0@, p.1@);
        let ghost before = self.accs@;
        let level = self.level;
        let upstream = Accumulator::new(
            *id,
            Direction::Upstream,
            level,
            self.force_binary,
            unix_client,
        );
        let downstream = Accumulator::new(
            *id,
            Direction::Downstream,
            level,
            self.force_binary,
            false,
        );
        self.accs.insert(id.0, (upstream, downstream));
        proof {
            assert(self.accs@.map_values(f) =~= before.map_values(f).insert(
                id.0,
                (upstream@, downstream@),
            ));
        }
    }

    fn remove_connection(&mut self, id: &ConnectionId)
        requires
            old(self).wf(),
        ensures
            final(self).wf(),
            final(self)@ == (StateView { accs: old(self)@.accs.remove(id.0), ..old(self)@ }),
    {
        let ghost f = |p: (Accumulator, Accumulator)| (p.0@, p.1@);
        let ghost before = self.accs@;
        let _ = self.accs.remove(&id.0);
        proof {
            assert(self.accs@.map_values(f) =~= before.map_values(f).remove(id.0));
        }
    }

    /// Say so if the sender of a direction has stopped in the middle of a
    /// frame.
    fn check_incomplete(&self, id: ConnectionId, direction: Direction, renderer: &mut Renderer)
        requires
            self@.accs.contains_key(id.0),
        ensures
            final(renderer)@ == (if pick(self@.accs[id.0], direction).analyzer.at_rest() {
                old(renderer)@
            } else {
                old(renderer)@.message(
                    IdStream(Some(id), Some(direction)),
                    pick(self@.accs[id.0], direction).incomplete().message,
                )
            }),
    {
        proof {
            let f = |p: (Accumulator, Accumulator)| (p.0@, p.1@);
            assert(self.accs@.map_values(f).dom() =~= self.accs@.dom());
        }
        let pair = match self.accs.get(&id.0) {
            Some(pair) => pair,
            None => {
                return ;
            },
        };
        let acc = match direction {
            Direction::Upstream => &pair.0,
            Direction::Downstream => &pair.1,
        };
        if let Err(e) = acc.check_incomplete() {
            renderer.message(Some(id), Some(direction), e.message.as_slice());
        }
    }
}

} // verus!
