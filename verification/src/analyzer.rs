//! Incremental framing analyzer for MAPI byte streams.
//!
//! A MAPI stream is a sequence of blocks. Every block starts with a two byte
//! little-endian header `n`; `n / 2` is the length of the body that follows
//! and the lowest bit of `n` tells whether the block is the last one of its
//! message. The [`Analyzer`] is fed the stream in arbitrary pieces and cuts
//! every piece into chunks that are entirely header or entirely body.

use vstd::prelude::*;

verus! {

/// Largest body length a block header may announce.
pub const MAX_BLOCK_LEN: u16 = 8190;

/// The sentinel byte a Unix Domain client sends before its first header.
pub const UNIX_SENTINEL: u8 = 0x30;

/// The 16 bit number held by a little-endian header.
pub open spec fn header_value(byte1: u8, byte2: u8) -> int {
    byte1 as int + 256 * (byte2 as int)
}

/// Body length announced by the header `(byte1, byte2)`.
pub open spec fn header_len(byte1: u8, byte2: u8) -> int {
    header_value(byte1, byte2) / 2
}

/// Whether the header `(byte1, byte2)` marks the last block of a message.
pub open spec fn header_last(byte1: u8, byte2: u8) -> bool {
    header_value(byte1, byte2) % 2 == 1
}

/// Where in the stream the analyzer is, together with what the most recent
/// step has consumed.
#[derive(Debug, Clone, Copy, PartialEq, Eq, Structural)]
pub enum Analyzer {
    /// Between two blocks. `boundary` tells whether the previous block ended
    /// its message, `was_head` whether the most recent step consumed the
    /// header of an empty block, `was_body` whether it consumed body bytes.
    Head { boundary: bool, was_head: bool, was_body: bool },
    /// The first byte of a header has been seen.
    PartialHead { byte1: u8 },
    /// Inside the body of a block of `len` bytes, `still_needed` of which are
    /// yet to come.
    Body { still_needed: u16, len: u16, last: bool },
    /// Waiting for the sentinel byte of a Unix Domain client.
    Unix0,
    /// The stream violated the protocol; everything that follows is opaque.
    Error,
}

impl Analyzer {
    /// The states that can be reached from an initial state.
    pub open spec fn wf(self) -> bool {
        match self {
            Analyzer::Head { boundary, was_head, was_body } => was_head ==> !boundary && !was_body,
            Analyzer::Body { still_needed, len, last } => {
                &&& still_needed <= len
                &&& len <= MAX_BLOCK_LEN
                &&& len == 0 ==> last
            },
            _ => true,
        }
    }

    /// The state in which a stream starts.
    pub open spec fn initial(unix_client: bool) -> Analyzer {
        if unix_client {
            Analyzer::Unix0
        } else {
            Analyzer::Head { boundary: true, was_head: false, was_body: false }
        }
    }

    /// The state right after the header `(byte1, byte2)` has been read.
    ///
    /// A header that announces more than [`MAX_BLOCK_LEN`] bytes is a protocol
    /// violation. An empty block that does not end its message has no body to
    /// wait for, so the analyzer is between blocks again at once.
    pub open spec fn after_header(byte1: u8, byte2: u8) -> Analyzer {
        let len = header_len(byte1, byte2);
        let last = header_last(byte1, byte2);
        if len > MAX_BLOCK_LEN {
            Analyzer::Error
        } else if len == 0 && !last {
            Analyzer::Head { boundary: false, was_head: true, was_body: false }
        } else {
            Analyzer::Body { still_needed: len as u16, len: len as u16, last }
        }
    }

    /// Whether a step can be taken on `data`. The only step possible on empty
    /// data is the one that completes a body of which nothing is missing.
    pub open spec fn can_step(self, data: Seq<u8>) -> bool {
        data.len() > 0 || (self matches Analyzer::Body { still_needed, .. } && still_needed == 0)
    }

    /// Number of leading bytes of `data` that the next step consumes.
    pub open spec fn step_len(self, data: Seq<u8>) -> nat
        recommends
            self.can_step(data),
    {
        match self {
            Analyzer::Head { .. } => if data.len() >= 2 { 2 } else { 1 },
            Analyzer::PartialHead { .. } => 1,
            Analyzer::Body { still_needed, .. } => if still_needed <= data.len() {
                still_needed as nat
            } else {
                data.len()
            },
            Analyzer::Unix0 => 1,
            Analyzer::Error => if data.len() <= u16::MAX { data.len() } else { u16::MAX as nat },
        }
    }

    /// The state after the next step on `data`.
    pub open spec fn step_state(self, data: Seq<u8>) -> Analyzer
        recommends
            self.can_step(data),
    {
        match self {
            Analyzer::Head { .. } => if data.len() >= 2 {
                Analyzer::after_header(data[0], data[1])
            } else {
                Analyzer::PartialHead { byte1: data[0] }
            },
            Analyzer::PartialHead { byte1 } => Analyzer::after_header(byte1, data[0]),
            Analyzer::Body { still_needed, len, last } => if still_needed <= data.len() {
                Analyzer::Head { boundary: last, was_head: false, was_body: true }
            } else {
                Analyzer::Body { still_needed: (still_needed - data.len()) as u16, len, last }
            },
            Analyzer::Unix0 => if data[0] == UNIX_SENTINEL {
                Analyzer::Head { boundary: true, was_head: false, was_body: false }
            } else {
                Analyzer::Error
            },
            Analyzer::Error => Analyzer::Error,
        }
    }

    /// Whether the most recent step consumed header bytes.
    pub open spec fn spec_was_head(self) -> bool {
        match self {
            Analyzer::PartialHead { .. } => true,
            Analyzer::Body { still_needed, len, .. } => still_needed == len,
            Analyzer::Head { was_head, .. } => was_head,
            _ => false,
        }
    }

    /// Whether the most recent step consumed body bytes.
    pub open spec fn spec_was_body(self) -> bool {
        match self {
            Analyzer::Body { still_needed, len, .. } => still_needed < len,
            Analyzer::Head { was_body, .. } => was_body,
            _ => false,
        }
    }

    /// Whether the stream may end here without cutting a message short.
    pub open spec fn at_rest(self) -> bool {
        match self {
            Analyzer::Head { boundary, .. } => boundary,
            Analyzer::Unix0 | Analyzer::Error => true,
            _ => false,
        }
    }

    /// Where in the frame the sender has stopped, if the stream ends here
    /// and may not.
    pub open spec fn situation(self) -> &'static str {
        match self {
            Analyzer::Head { .. } => "on a block boundary but not on a message boundary",
            Analyzer::PartialHead { .. } => "in the middle of the header block",
            Analyzer::Body { last, .. } => if last {
                "in the middle of the last block of the message"
            } else {
                "in the middle of a block"
            },
            _ => "",
        }
    }

    /// Create the analyzer for a fresh stream. The stream of a Unix Domain
    /// client starts with a sentinel byte, every other stream with a header.
    pub fn new(unix_client: bool) -> (a: Analyzer)
        ensures
            a == Analyzer::initial(unix_client),
            a.wf(),
    {
        if unix_client {
            Analyzer::Unix0
        } else {
            Analyzer::Head { boundary: true, was_head: false, was_body: false }
        }
    }

    /// Take one step on `data`: split off the longest prefix that is all of
    /// one kind, advance the state over it and return it. The rest is left in
    /// `data`. Returns `None`, and changes nothing, if no step is possible.
    pub fn split_chunk<'a>(&mut self, data: &mut &'a [u8]) -> (chunk: Option<&'a [u8]>)
        ensures
            old(self).can_step(old(data)@) <==> chunk is Some,
            chunk matches Some(head) ==> {
                &&& head@ == old(data)@.take(old(self).step_len(old(data)@) as int)
                &&& final(data)@ == old(data)@.skip(old(self).step_len(old(data)@) as int)
                &&& *final(self) == old(self).step_state(old(data)@)
            },
            chunk is None ==> *final(self) == *old(self) && *final(data) == *old(data),
            old(self).wf() ==> final(self).wf(),
    {
        match self.analyze(*data) {
            Some(n) => {
                let (head, tail) = data.split_at(n);
                *data = tail;
                Some(head)
            },
            None => None,
        }
    }

    /// Take one step on `data` and return the number of leading bytes it has
    /// consumed, or `None` if no step is possible.
    pub fn analyze(&mut self, data: &[u8]) -> (taken: Option<usize>)
        ensures
            old(self).can_step(data@) <==> taken is Some,
            taken matches Some(n) ==> {
                &&& n == old(self).step_len(data@)
                &&& n <= data@.len()
                &&& *final(self) == old(self).step_state(data@)
            },
            taken is None ==> *final(self) == *old(self),
            old(self).wf() ==> final(self).wf(),
    {
        let avail = data.len();
        let (taken, new_state): (usize, Analyzer) = match *self {
            Analyzer::Head { .. } => {
                if avail >= 2 {
                    (2, Self::parse_header(data[0], data[1]))
                } else if avail == 1 {
                    (1, Analyzer::PartialHead { byte1: data[0] })
                } else {
                    return None;
                }
            },
            Analyzer::PartialHead { byte1 } => {
                if avail >= 1 {
                    (1, Self::parse_header(byte1, data[0]))
                } else {
                    return None;
                }
            },
            Analyzer::Body { still_needed, len, last } => {
                if still_needed as usize <= avail {
                    (
                        still_needed as usize,
                        Analyzer::Head { boundary: last, was_head: false, was_body: true },
                    )
                } else if avail >= 1 {
                    let n: u16 = avail as u16;
                    (avail, Analyzer::Body { still_needed: still_needed - n, len, last })
                } else {
                    return None;
                }
            },
            Analyzer::Unix0 => {
                if avail == 0 {
                    return None;
                } else if data[0] == UNIX_SENTINEL {
                    (1, Analyzer::Head { boundary: true, was_head: false, was_body: false })
                } else {
                    (1, Analyzer::Error)
                }
            },
            Analyzer::Error => {
                if avail == 0 {
                    return None;
                } else if avail <= u16::MAX as usize {
                    (avail, Analyzer::Error)
                } else {
                    (u16::MAX as usize, Analyzer::Error)
                }
            },
        };
        *self = new_state;
        Some(taken)
    }

    /// Decode a header and return the state to continue in.
    pub fn parse_header(byte1: u8, byte2: u8) -> (a: Analyzer)
        ensures
            a == Analyzer::after_header(byte1, byte2),
            a.wf(),
    {
        let n: u16 = byte1 as u16 + 256 * (byte2 as u16);
        let len: u16 = n / 2;
        let last = n % 2 == 1;
        if len > MAX_BLOCK_LEN {
            Analyzer::Error
        } else if len == 0 && !last {
            Analyzer::Head { boundary: false, was_head: true, was_body: false }
        } else {
            Analyzer::Body { still_needed: len, len, last }
        }
    }

    /// Whether the stream has violated the protocol.
    pub fn was_error(&self) -> (b: bool)
        ensures
            b <==> *self is Error,
    {
        matches!(self, Analyzer::Error)
    }

    /// Whether the most recent step consumed header bytes.
    pub fn was_head(&self) -> (b: bool)
        ensures
            b == self.spec_was_head(),
    {
        match self {
            Analyzer::PartialHead { .. } => true,
            Analyzer::Body { still_needed, len, .. } => *still_needed == *len,
            Analyzer::Head { was_head, .. } => *was_head,
            _ => false,
        }
    }

    /// Whether the most recent step consumed body bytes.
    pub fn was_body(&self) -> (b: bool)
        ensures
            b == self.spec_was_body(),
    {
        match self {
            Analyzer::Body { still_needed, len, .. } => *still_needed < *len,
            Analyzer::Head { was_body, .. } => *was_body,
            _ => false,
        }
    }

    /// Whether the analyzer is between two blocks.
    pub fn was_block_boundary(&self) -> (b: bool)
        ensures
            b <==> *self is Head,
    {
        matches!(self, Analyzer::Head { .. })
    }

    /// Whether the analyzer is between two messages.
    pub fn was_message_boundary(&self) -> (b: bool)
        ensures
            b <==> (*self matches Analyzer::Head { boundary, .. } && boundary),
    {
        matches!(self, Analyzer::Head { boundary: true, .. })
    }

    /// Check whether the stream may end here. If it may not, the error names
    /// the place in the frame at which the sender stopped.
    pub fn check_incomplete(&self) -> (r: Result<(), &'static str>)
        ensures
            r is Ok <==> self.at_rest(),
            r matches Err(msg) ==> msg == self.situation(),
    {
        let msg = match self {
            Analyzer::Head { boundary: true, .. } => return Ok(()),
            Analyzer::Head { boundary: false, .. } => {
                "on a block boundary but not on a message boundary"
            },
            Analyzer::PartialHead { .. } => "in the middle of the header block",
            Analyzer::Body { last: false, .. } => "in the middle of a block",
            Analyzer::Body { last: true, .. } => "in the middle of the last block of the message",
            Analyzer::Error | Analyzer::Unix0 => return Ok(()),
        };
        Err(msg)
    }
}

impl Analyzer {
    /// Body bytes already consumed of the block the analyzer is in.
    pub open spec fn body_seen(self) -> nat {
        match self {
            Analyzer::Body { still_needed, len, .. } => (len - still_needed) as nat,
            _ => 0,
        }
    }

    /// The chunks that repeated steps cut `data` into, in order.
    pub open spec fn chunks(self, data: Seq<u8>) -> Seq<Seq<u8>>
        decreases data.len(), (if self.can_step(Seq::empty()) { 1nat } else { 0nat }),
    {
        if self.can_step(data) {
            let n = self.step_len(data) as int;
            seq![data.take(n)] + self.step_state(data).chunks(data.skip(n))
        } else {
            Seq::empty()
        }
    }

    /// The state after repeated steps have consumed all of `data`.
    pub open spec fn run(self, data: Seq<u8>) -> Analyzer
        decreases data.len(), (if self.can_step(Seq::empty()) { 1nat } else { 0nat }),
    {
        if self.can_step(data) {
            self.step_state(data).run(data.skip(self.step_len(data) as int))
        } else {
            self
        }
    }

    /// Whether, on the way through `data`, every body that completes has
    /// exactly the length that its header announced. `seen` is the number of
    /// body bytes already consumed of the block that `self` is in.
    pub open spec fn bodies_match(self, seen: nat, data: Seq<u8>) -> bool
        decreases data.len(), (if self.can_step(Seq::empty()) { 1nat } else { 0nat }),
    {
        if self.can_step(data) {
            let n = self.step_len(data);
            let next = self.step_state(data);
            match self {
                Analyzer::Body { len, .. } => {
                    &&& next is Head ==> seen + n == len
                    &&& next.bodies_match(seen + n, data.skip(n as int))
                },
                _ => next.bodies_match(0, data.skip(n as int)),
            }
        } else {
            true
        }
    }

    /// Every step leaves the analyzer in a reachable state, and never
    /// consumes more than there is.
    pub proof fn lemma_step(self, data: Seq<u8>)
        requires
            self.wf(),
            self.can_step(data),
        ensures
            self.step_state(data).wf(),
            self.step_len(data) <= data.len(),
            self.step_len(data) == 0 ==> !self.step_state(data).can_step(Seq::empty()),
            self.step_state(data) is Body ==> self.step_state(data).body_seen() == (if self is Body {
                self.body_seen() + self.step_len(data)
            } else {
                0
            }),
    {
    }

    /// Nothing is lost and nothing is invented: the chunks that the analyzer
    /// cuts a piece of the stream into, put together again, are that piece.
    pub proof fn lemma_chunks_concat(self, data: Seq<u8>)
        ensures
            self.chunks(data).flatten() == data,
            self.run(data).can_step(Seq::empty()) == false,
        decreases data.len(), (if self.can_step(Seq::empty()) { 1nat } else { 0nat }),
    {
        if self.can_step(data) {
            let n = self.step_len(data) as int;
            let next = self.step_state(data);
            let rest = next.chunks(data.skip(n));
            next.lemma_chunks_concat(data.skip(n));
            let all = seq![data.take(n)] + rest;
            assert(all.first() == data.take(n));
            assert(all.drop_first() =~= rest);
            assert(all.flatten() =~= data.take(n) + rest.flatten());
            assert(data.take(n) + data.skip(n) =~= data);
        } else {
            assert(data =~= Seq::<u8>::empty());
            assert(self.chunks(data).flatten() =~= Seq::<u8>::empty());
        }
    }

    /// Whenever a body completes, the body bytes consumed since its header
    /// add up to the length the header announced. This holds from every
    /// reachable state, hence also when the stream arrives in pieces.
    pub proof fn lemma_bodies_match(self, data: Seq<u8>)
        requires
            self.wf(),
        ensures
            self.bodies_match(self.body_seen(), data),
            self.run(data).wf(),
        decreases data.len(), (if self.can_step(Seq::empty()) { 1nat } else { 0nat }),
    {
        if self.can_step(data) {
            let n = self.step_len(data);
            let next = self.step_state(data);
            self.lemma_step(data);
            next.lemma_bodies_match(data.skip(n as int));
            if !(next is Body) {
                next.lemma_seen_irrelevant(next.body_seen(), self.body_seen() + n, data.skip(n as int));
            }
        }
    }

    /// Outside a body, the count of body bytes seen plays no role.
    pub proof fn lemma_seen_irrelevant(self, seen1: nat, seen2: nat, data: Seq<u8>)
        requires
            !(self is Body),
        ensures
            self.bodies_match(seen1, data) == self.bodies_match(seen2, data),
    {
    }

    /// A stream from its very start: every completed body has the length its
    /// header announced.
    pub proof fn lemma_stream_bodies_match(unix_client: bool, data: Seq<u8>)
        ensures
            Analyzer::initial(unix_client).bodies_match(0, data),
    {
        Analyzer::initial(unix_client).lemma_bodies_match(data);
    }
}

impl Analyzer {
    /// The body bytes among the chunks that repeated steps cut `data` into,
    /// in order.
    pub open spec fn bodies(self, data: Seq<u8>) -> Seq<u8>
        decreases data.len(), (if self.can_step(Seq::empty()) { 1nat } else { 0nat }),
    {
        if self.can_step(data) {
            let n = self.step_len(data) as int;
            let next = self.step_state(data);
            (if next.spec_was_body() {
                data.take(n)
            } else {
                Seq::empty()
            }) + next.bodies(data.skip(n))
        } else {
            Seq::empty()
        }
    }

    /// After a violation of the protocol nothing is told apart any more.
    pub proof fn lemma_error_stays(data: Seq<u8>)
        ensures
            Analyzer::Error.run(data) == Analyzer::Error,
            Analyzer::Error.bodies(data) == Seq::<u8>::empty(),
        decreases data.len(),
    {
        if data.len() > 0 {
            let n = Analyzer::Error.step_len(data) as int;
            Self::lemma_error_stays(data.skip(n));
            assert(Analyzer::Error.bodies(data) =~= Seq::<u8>::empty());
        }
    }

    /// It makes no difference where a stream is cut into the pieces that are
    /// fed to the analyzer: fed `a` and then `b`, it ends in the state in
    /// which it ends when fed both in one piece, and has told the same bytes
    /// to be body bytes.
    pub proof fn lemma_cut(self, a: Seq<u8>, b: Seq<u8>)
        requires
            self.wf(),
        ensures
            self.run(a + b) == self.run(a).run(b),
            self.bodies(a + b) == self.bodies(a) + self.run(a).bodies(b),
        decreases a.len(), (if self.can_step(Seq::empty()) { 1nat } else { 0nat }),
    {
        let ab = a + b;
        let none = Seq::<u8>::empty();
        if !self.can_step(a) {
            assert(ab =~= b);
            assert(self.bodies(a) + self.bodies(b) =~= self.bodies(b));
        } else if b.len() == 0 {
            assert(ab =~= a);
            self.lemma_chunks_concat(a);
            assert(self.bodies(a) + none =~= self.bodies(a));
        } else if self is Error {
            Self::lemma_error_stays(a);
            Self::lemma_error_stays(b);
            Self::lemma_error_stays(ab);
            assert(none + none =~= none);
        } else {
            let n1 = self.step_len(a) as int;
            let s1 = self.step_state(a);
            self.lemma_step(a);
            let same = match self {
                Analyzer::Head { .. } => a.len() >= 2,
                Analyzer::Body { still_needed, .. } => still_needed <= a.len(),
                _ => true,
            };
            if same {
                assert(self.step_len(ab) == n1);
                assert(self.step_state(ab) == s1);
                assert(ab.take(n1) =~= a.take(n1));
                assert(ab.skip(n1) =~= a.skip(n1) + b);
                s1.lemma_cut(a.skip(n1), b);
                let head = if s1.spec_was_body() {
                    a.take(n1)
                } else {
                    none
                };
                assert(head + (s1.bodies(a.skip(n1)) + s1.run(a.skip(n1)).bodies(b)) =~= (head
                    + s1.bodies(a.skip(n1))) + s1.run(a.skip(n1)).bodies(b));
            } else {
                // the step on `a` alone stops where `a` ends
                assert(a.skip(n1) =~= none);
                assert(!s1.can_step(none));
                assert(s1.run(a.skip(n1)) == s1);
                assert(s1.bodies(a.skip(n1)) =~= none);
                let n = self.step_len(ab) as int;
                let t = self.step_state(ab);
                match self {
                    Analyzer::Head { .. } => {
                        assert(n == 2 && n1 == 1);
                        assert(s1.step_len(b) == 1);
                        assert(s1.step_state(b) == t);
                        assert(ab.skip(2) =~= b.skip(1));
                        assert(!t.spec_was_body());
                        assert(self.bodies(a) =~= none);
                        assert(none + t.bodies(b.skip(1)) =~= none + (none + t.bodies(b.skip(1))));
                    },
                    Analyzer::Body { still_needed, len, last } => {
                        let rest = (still_needed - a.len()) as int;
                        assert(n1 == a.len());
                        assert(s1.spec_was_body());
                        assert(self.bodies(a) =~= a) by {
                            assert(a.take(n1) =~= a);
                        }
                        assert(t.spec_was_body());
                        if still_needed <= ab.len() {
                            assert(s1.step_len(b) == rest);
                            assert(s1.step_state(b) == t);
                            assert(ab.take(n) =~= a + b.take(rest));
                            assert(ab.skip(n) =~= b.skip(rest));
                            assert(ab.take(n) + t.bodies(ab.skip(n)) =~= a + (b.take(rest)
                                + t.bodies(b.skip(rest))));
                        } else {
                            assert(s1.step_len(b) == b.len());
                            assert(s1.step_state(b) == t);
                            assert(ab.take(n) =~= ab);
                            assert(ab.skip(n) =~= none);
                            assert(b.skip(b.len() as int) =~= none);
                            assert(b.take(b.len() as int) =~= b);
                            assert(!t.can_step(none));
                            assert(t.bodies(none) =~= none);
                            assert(ab + none =~= a + (b + none));
                        }
                    },
                    _ => {},
                }
            }
        }
    }
}

} // verus!
