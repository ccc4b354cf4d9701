//! Showing the data of one direction of a connection.
//!
//! An [`Accumulator`] is fed the data of its direction as it arrives. As the
//! [`Level`] says, it shows the bytes as they come, or collects the body
//! bytes of blocks or messages and shows each block or message when it is
//! complete.

use crate::analyzer::Analyzer;
use crate::error::{IoError, IoErrorKind, IoErrorView};
use crate::event::{sender_of, ConnectionId, Direction};
use crate::hexdump::{added_all, finished, Binary};
use crate::render::{IdStream, Renderer, RendererView};
use crate::text::{decimal_digits, push_decimal, push_str};
use vstd::prelude::*;
use vstd::string::StringSliceAdditionalSpecFns;
use vstd::utf8::valid_utf8;

verus! {

/// How much of the structure of the traffic is shown.
#[derive(Debug, PartialEq, Eq, PartialOrd, Ord, Clone, Copy, Structural)]
pub enum Level {
    /// The bytes as they come in.
    Raw,
    /// The body of each block.
    Blocks,
    /// The bodies of the blocks of each message, put together.
    Messages,
}

/// `core::str::Utf8Error`: why bytes are not valid UTF-8. Nothing of its
/// inside is seen here.
#[verifier::external_type_specification]
#[verifier::external_body]
pub struct ExUtf8Error(core::str::Utf8Error);

/// `core::str::from_utf8`: the bytes as a string if they are valid UTF-8,
/// and an error if they are not.
#[verifier::external_body]
fn str_from_utf8(data: &[u8]) -> (r: Result<&str, core::str::Utf8Error>)
    ensures
        r is Ok <==> valid_utf8(data@),
        r matches Ok(s) ==> s.spec_bytes() == data@,
{
    core::str::from_utf8(data)
}

/// Whether a byte is a control character other than newline and tab.
pub open spec fn is_scary_byte(b: u8) -> bool {
    b < 32 && b != 10 && b != 9
}

/// Whether `data` holds a control character other than newline and tab.
pub open spec fn is_scary(data: Seq<u8>) -> bool {
    exists|i: int| 0 <= i < data.len() && is_scary_byte(#[trigger] data[i])
}

/// The state of the renderer after `data` has been put as text: a newline
/// is marked and ends the line, a tab is marked.
pub open spec fn text_cells(r: RendererView, data: Seq<u8>) -> RendererView
    decreases data.len(),
{
    if data.len() == 0 {
        r
    } else {
        let before = text_cells(r, data.drop_last());
        let b = data.last();
        if b == 10 {
            before.put("↵".spec_bytes()).nl()
        } else if b == 9 {
            before.put("→".spec_bytes())
        } else {
            before.put(seq![b])
        }
    }
}

/// Whether a frame is shown as a hex dump rather than as text: if that is
/// asked for, if it holds control characters, or if it is not valid UTF-8.
pub open spec fn is_binary(force_binary: bool, data: Seq<u8>) -> bool {
    force_binary || is_scary(data) || !valid_utf8(data)
}

/// The items in the header of a frame: how it is shown, what it is, and
/// how long it is.
pub open spec fn frame_items(level: Level, force_binary: bool, data: Seq<u8>) -> Seq<Seq<u8>> {
    seq![
        if is_binary(force_binary, data) {
            "binary".spec_bytes()
        } else {
            "text".spec_bytes()
        },
        if level == Level::Messages {
            "message".spec_bytes()
        } else {
            "block".spec_bytes()
        },
        decimal_digits(data.len()) + " bytes".spec_bytes(),
    ]
}

/// The state of the renderer after a block or message has been shown: a
/// header, the data as a hex dump or as text, and a footer.
#[verifier::opaque]
pub open spec fn frame_out(
    mark: IdStream,
    level: Level,
    force_binary: bool,
    r: RendererView,
    data: Seq<u8>,
) -> RendererView {
    let opened = r.header(mark, frame_items(level, force_binary, data));
    let body = if is_binary(force_binary, data) {
        let rows = added_all(Seq::empty(), opened, data, false);
        finished(rows.0, rows.1).1
    } else {
        text_cells(opened, data).clear_line()
    };
    body.footer(Seq::empty())
}

/// What is known of one direction of a connection, as the contracts see it.
pub struct AccumulatorView {
    pub id: ConnectionId,
    pub direction: Direction,
    pub level: Level,
    pub force_binary: bool,
    pub analyzer: Analyzer,
    /// The row of the hex dump that is being filled.
    pub row: Seq<(u8, bool)>,
    /// The body bytes of the block or message that is not complete yet.
    pub buf: Seq<u8>,
}

impl AccumulatorView {
    /// A fresh direction.
    pub open spec fn initial(
        id: ConnectionId,
        direction: Direction,
        level: Level,
        force_binary: bool,
        unix_client: bool,
    ) -> AccumulatorView {
        AccumulatorView {
            id,
            direction,
            level,
            force_binary,
            analyzer: Analyzer::initial(unix_client),
            row: Seq::empty(),
            buf: Seq::empty(),
        }
    }

    pub open spec fn mark(self) -> IdStream {
        IdStream(Some(self.id), Some(self.direction))
    }

    /// The state of the renderer after a block or message has been shown.
    pub open spec fn dump_frame(self, r: RendererView, data: Seq<u8>) -> RendererView {
        frame_out(self.mark(), self.level, self.force_binary, r, data)
    }

    /// The bytes of `data` go to the hex dump, chunk by chunk, those of
    /// block headers marked as such.
    pub open spec fn raw_chunks(self, r: RendererView, data: Seq<u8>) -> (
        AccumulatorView,
        RendererView,
    )
        decreases data.len(), (if self.analyzer.can_step(Seq::empty()) {
            1nat
        } else {
            0nat
        }),
    {
        if self.analyzer.can_step(data) {
            let n = self.analyzer.step_len(data) as int;
            let analyzer = self.analyzer.step_state(data);
            let rows = added_all(self.row, r, data.take(n), analyzer.spec_was_head());
            (AccumulatorView { analyzer, row: rows.0, ..self }).raw_chunks(rows.1, data.skip(n))
        } else {
            (self, r)
        }
    }

    /// Showing data as it comes in: a frame with a hex dump of all of it.
    pub open spec fn handle_raw(self, r: RendererView, data: Seq<u8>) -> (
        AccumulatorView,
        RendererView,
    ) {
        let opened = r.header(
            self.mark(),
            seq![decimal_digits(data.len()) + " bytes".spec_bytes()],
        );
        let dumped = self.raw_chunks(opened, data);
        let rows = finished(dumped.0.row, dumped.1);
        (AccumulatorView { row: rows.0, ..dumped.0 }, rows.1.footer(Seq::empty()))
    }

    /// Whether a step has completed a frame: a block, or a message.
    pub open spec fn at_end(self, analyzer: Analyzer) -> bool {
        match self.level {
            Level::Messages => analyzer matches Analyzer::Head { boundary, .. } && boundary,
            _ => analyzer is Head,
        }
    }

    /// What becomes of a chunk that the analyzer has just split off: body
    /// bytes are collected, and when they complete a block or a message, it
    /// is shown.
    pub open spec fn after_chunk(self, r: RendererView, chunk: Seq<u8>) -> (
        AccumulatorView,
        RendererView,
    ) {
        if !self.analyzer.spec_was_body() {
            (self, r)
        } else if !self.at_end(self.analyzer) {
            (AccumulatorView { buf: self.buf + chunk, ..self }, r)
        } else {
            (AccumulatorView { buf: Seq::empty(), ..self }, self.dump_frame(r, self.buf + chunk))
        }
    }

    /// The data is cut into chunks, and each chunk is seen to.
    pub open spec fn frame_chunks(self, r: RendererView, data: Seq<u8>) -> (
        AccumulatorView,
        RendererView,
    )
        decreases data.len(), (if self.analyzer.can_step(Seq::empty()) {
            1nat
        } else {
            0nat
        }),
    {
        if self.analyzer.can_step(data) {
            let n = self.analyzer.step_len(data) as int;
            let analyzer = self.analyzer.step_state(data);
            let stepped = AccumulatorView { analyzer, ..self };
            let next = stepped.after_chunk(r, data.take(n));
            (AccumulatorView { analyzer, ..next.0 }).frame_chunks(next.1, data.skip(n))
        } else {
            (self, r)
        }
    }

    /// What becomes of the direction and the renderer when data arrives.
    pub open spec fn handle_data(self, r: RendererView, data: Seq<u8>) -> (
        AccumulatorView,
        RendererView,
    ) {
        if self.level == Level::Raw {
            self.handle_raw(r, data)
        } else {
            self.frame_chunks(r, data)
        }
    }

    /// What is said when the sender stops in the middle of a frame.
    pub open spec fn incomplete(self) -> IoErrorView {
        IoErrorView {
            kind: IoErrorKind::UnexpectedEof,
            message: sender_of(self.direction).spec_bytes() + " closed the connection ".spec_bytes()
                + self.analyzer.situation().spec_bytes(),
        }
    }
}

/// What is known of one direction of a connection: where in the stream it
/// is, and the data that has not been shown yet.
#[derive(Debug)]
pub struct Accumulator {
    id: ConnectionId,
    direction: Direction,
    level: Level,
    force_binary: bool,
    analyzer: Analyzer,
    binary: Binary,
    buf: Vec<u8>,
}

impl View for Accumulator {
    type V = AccumulatorView;

    closed spec fn view(&self) -> AccumulatorView {
        AccumulatorView {
            id: self.id,
            direction: self.direction,
            level: self.level,
            force_binary: self.force_binary,
            analyzer: self.analyzer,
            row: self.binary@,
            buf: self.buf@,
        }
    }
}

impl Accumulator {
    /// The row of the hex dump is never full between calls.
    pub closed spec fn wf(&self) -> bool {
        self.binary.wf()
    }

    pub fn new(
        id: ConnectionId,
        direction: Direction,
        level: Level,
        force_binary: bool,
        unix_client: bool,
    ) -> (acc: Accumulator)
        ensures
            acc.wf(),
            acc@ == AccumulatorView::initial(id, direction, level, force_binary, unix_client),
    {
        Accumulator {
            id,
            direction,
            level,
            force_binary,
            analyzer: Analyzer::new(unix_client),
            binary: Binary::new(),
            buf: Vec::with_capacity(8192),
        }
    }

    /// Show the data that has arrived, as far as it can be shown yet.
    pub fn handle_data(&mut self, data: &[u8], renderer: &mut Renderer)
        requires
            old(self).wf(),
        ensures
            final(self).wf(),
            (final(self)@, final(renderer)@) == old(self)@.handle_data(old(renderer)@, data@),
    {
        match self.level {
            Level::Raw => self.handle_raw(renderer, data),
            Level::Blocks | Level::Messages => self.handle_frame(renderer, data),
        }
    }

    fn handle_raw(&mut self, renderer: &mut Renderer, data: &[u8])
        requires
            old(self).wf(),
        ensures
            final(self).wf(),
            (final(self)@, final(renderer)@) == old(self)@.handle_raw(old(renderer)@, data@),
    {
        let mut data = data;
        let mut count: Vec<u8> = Vec::new();
        push_decimal(&mut count, data.len());
        push_str(&mut count, " bytes");
        let mut items: Vec<Vec<u8>> = Vec::new();
        items.push(count);
        proof {
            assert(crate::render::views(items@) =~= seq![
                decimal_digits(data@.len()) + " bytes".spec_bytes(),
            ]);
        }
        renderer.header(self.id, self.direction, &items);
        let ghost opened = renderer@;
        let ghost start = self@;
        let ghost all = data@;
        loop
            invariant
                self.wf(),
                renderer@.in_frame(),
                start.raw_chunks(opened, all) == self@.raw_chunks(renderer@, data@),
            ensures
                self.wf(),
                renderer@.in_frame(),
                start.raw_chunks(opened, all) == (self@, renderer@),
            decreases
                    data@.len(),
                    (if self@.analyzer.can_step(Seq::empty()) {
                        1nat
                    } else {
                        0nat
                    }),
        {
            let ghost before = self@;
            let ghost shown = renderer@;
            let ghost remaining = data@;
            let head = match self.analyzer.split_chunk(&mut data) {
                None => {
                    break ;
                },
                Some(head) => head,
            };
            let is_head = self.analyzer.was_head();
            let mut i: usize = 0;
            proof {
                assert(head@.take(0) =~= Seq::<u8>::empty());
            }
            while i < head.len()
                invariant
                    i <= head@.len(),
                    self.binary.wf(),
                    renderer@.in_frame(),
                    self.analyzer == before.analyzer.step_state(remaining),
                    self.id == before.id,
                    self.direction == before.direction,
                    self.level == before.level,
                    self.force_binary == before.force_binary,
                    self.buf@ == before.buf,
                    (self.binary@, renderer@) == added_all(
                        before.row,
                        shown,
                        head@.take(i as int),
                        is_head,
                    ),
                decreases head@.len() - i,
            {
                proof {
                    assert(head@.take(i + 1).drop_last() =~= head@.take(i as int));
                }
                self.binary.add(head[i], is_head, renderer);
                i = i + 1;
            }
            proof {
                assert(head@.take(i as int) =~= head@);
            }
        }
        self.binary.finish(renderer);
        let none: Vec<Vec<u8>> = Vec::new();
        proof {
            assert(crate::render::views(none@) =~= Seq::<Seq<u8>>::empty());
        }
        renderer.footer(&none);
    }

    /// Collect the body bytes in the data that has arrived, and show every
    /// block or message that they complete.
    pub fn handle_frame(&mut self, renderer: &mut Renderer, data: &[u8])
        requires
            old(self).wf(),
            old(self)@.level != Level::Raw,
        ensures
            final(self).wf(),
            (final(self)@, final(renderer)@) == old(self)@.frame_chunks(old(renderer)@, data@),
    {
        let mut data = data;
        let ghost start = self@;
        let ghost all = data@;
        loop
            invariant
                self.wf(),
                self@.level != Level::Raw,
                start.frame_chunks(old(renderer)@, all) == self@.frame_chunks(renderer@, data@),
            ensures
                self.wf(),
                start.frame_chunks(old(renderer)@, all) == (self@, renderer@),
            decreases
                    data@.len(),
                    (if self@.analyzer.can_step(Seq::empty()) {
                        1nat
                    } else {
                        0nat
                    }),
        {
            let ghost before = self@;
            let ghost shown = renderer@;
            let ghost remaining = data@;
            match self.analyzer.split_chunk(&mut data) {
                None => {
                    break ;
                },
                Some(chunk) => {
                    let ghost stepped = self@;
                    self.accept_chunk(chunk, renderer);
                    proof {
                        assert(stepped == (AccumulatorView {
                            analyzer: before.analyzer.step_state(remaining),
                            ..before
                        }));
                        assert(self@ == (AccumulatorView {
                            analyzer: stepped.analyzer,
                            ..stepped.after_chunk(shown, chunk@).0
                        }));
                    }
                },
            }
        }
    }

    /// See to a chunk that the analyzer has just split off.
    fn accept_chunk(&mut self, chunk: &[u8], renderer: &mut Renderer)
        requires
            old(self).wf(),
            old(self)@.level != Level::Raw,
        ensures
            final(self).wf(),
            (final(self)@, final(renderer)@) == old(self)@.after_chunk(old(renderer)@, chunk@),
    {
        if !self.analyzer.was_body() {
            return ;
        }
        let at_end = match self.level {
            Level::Messages => self.analyzer.was_message_boundary(),
            _ => self.analyzer.was_block_boundary(),
        };
        assert(at_end == old(self)@.at_end(old(self)@.analyzer));
        if !at_end {
            self.buf.extend_from_slice(chunk);
            assert(self.buf@ == old(self).buf@ + chunk@);
            assert(self@ == (AccumulatorView { buf: old(self)@.buf + chunk@, ..old(self)@ }));
            assert(renderer@ == old(renderer)@);
            return ;
        }
        // we have a complete frame, dump it

        let ghost whole = self.buf@ + chunk@;
        if self.buf.len() == 0 {
            proof {
                assert(whole =~= chunk@);
            }
            self.dump_frame(chunk, renderer);
        } else {
            self.buf.extend_from_slice(chunk);
            let mut frame: Vec<u8> = Vec::new();
            core::mem::swap(&mut frame, &mut self.buf);
            assert(frame@ == whole);
            self.dump_frame(frame.as_slice(), renderer);
        }
        self.buf.clear();
        proof {
            assert(renderer@ == old(self)@.dump_frame(old(renderer)@, whole));
            assert(self@ == (AccumulatorView { buf: Seq::empty(), ..old(self)@ }));
        }
    }

    fn dump_frame(&self, data: &[u8], renderer: &mut Renderer)
        ensures
            final(renderer)@ == self@.dump_frame(old(renderer)@, data@),
    {
        reveal(frame_out);
        let len = data.len();
        let is_binary = self.force_binary || self.is_scary(data) || str_from_utf8(data).is_err();
        let format = if is_binary {
            "binary"
        } else {
            "text"
        };
        let kind = if self.level == Level::Messages {
            "message"
        } else {
            "block"
        };
        let mut items: Vec<Vec<u8>> = Vec::new();
        let mut item: Vec<u8> = Vec::new();
        push_str(&mut item, format);
        items.push(item);
        let mut item: Vec<u8> = Vec::new();
        push_str(&mut item, kind);
        items.push(item);
        let mut item: Vec<u8> = Vec::new();
        push_decimal(&mut item, len);
        push_str(&mut item, " bytes");
        items.push(item);
        proof {
            assert(crate::render::views(items@) =~= frame_items(
                self.level,
                self.force_binary,
                data@,
            ));
        }
        renderer.header(self.id, self.direction, &items);
        if is_binary {
            self.dump_frame_as_binary(data, renderer);
        } else {
            self.dump_frame_as_text(data, renderer);
        }
        let none: Vec<Vec<u8>> = Vec::new();
        proof {
            assert(crate::render::views(none@) =~= Seq::<Seq<u8>>::empty());
        }
        renderer.footer(&none);
    }

    /// Check whether the stream of this direction may end here.
    pub fn check_incomplete(&self) -> (r: Result<(), IoError>)
        ensures
            r is Ok <==> self@.analyzer.at_rest(),
            r matches Err(e) ==> e@ == self@.incomplete(),
    {
        if let Err(situation) = self.analyzer.check_incomplete() {
            let side = self.direction.sender();
            let mut message: Vec<u8> = Vec::new();
            push_str(&mut message, side);
            push_str(&mut message, " closed the connection ");
            push_str(&mut message, situation);
            return Err(IoError { kind: IoErrorKind::UnexpectedEof, message });
        }
        Ok(())
    }

    fn dump_frame_as_binary(&self, data: &[u8], renderer: &mut Renderer)
        requires
            old(renderer)@.in_frame(),
        ensures
            final(renderer)@.in_frame(),
            final(renderer)@ == finished(
                added_all(Seq::empty(), old(renderer)@, data@, false).0,
                added_all(Seq::empty(), old(renderer)@, data@, false).1,
            ).1,
    {
        let mut bin = Binary::new();
        let mut i: usize = 0;
        proof {
            assert(data@.take(0) =~= Seq::<u8>::empty());
        }
        while i < data.len()
            invariant
                i <= data@.len(),
                bin.wf(),
                renderer@.in_frame(),
                (bin@, renderer@) == added_all(
                    Seq::empty(),
                    old(renderer)@,
                    data@.take(i as int),
                    false,
                ),
            decreases data@.len() - i,
        {
            proof {
                assert(data@.take(i + 1).drop_last() =~= data@.take(i as int));
            }
            bin.add(data[i], false, renderer);
            i = i + 1;
        }
        proof {
            assert(data@.take(i as int) =~= data@);
        }
        bin.finish(renderer);
    }

    fn dump_frame_as_text(&self, data: &[u8], renderer: &mut Renderer)
        requires
            old(renderer)@.in_frame(),
        ensures
            final(renderer)@.in_frame(),
            final(renderer)@ == text_cells(old(renderer)@, data@).clear_line(),
    {
        let mut i: usize = 0;
        proof {
            assert(data@.take(0) =~= Seq::<u8>::empty());
        }
        while i < data.len()
            invariant
                i <= data@.len(),
                renderer@.in_frame(),
                renderer@ == text_cells(old(renderer)@, data@.take(i as int)),
            decreases data@.len() - i,
        {
            proof {
                assert(data@.take(i + 1).drop_last() =~= data@.take(i as int));
            }
            let byte = data[i];
            if byte == 10 {
                renderer.put("↵".as_bytes());
                renderer.nl();
            } else if byte == 9 {
                renderer.put("→".as_bytes());
            } else {
                let mut one: Vec<u8> = Vec::new();
                one.push(byte);
                assert(one@ =~= seq![byte]);
                renderer.put(one.as_slice());
            }
            i = i + 1;
        }
        proof {
            assert(data@.take(i as int) =~= data@);
        }
        renderer.clear_line();
    }

    fn is_scary(&self, data: &[u8]) -> (scary: bool)
        ensures
            scary == is_scary(data@),
    {
        let mut i: usize = 0;
        while i < data.len()
            invariant
                i <= data@.len(),
                forall|k: int| 0 <= k < i ==> !is_scary_byte(#[trigger] data@[k]),
            decreases data@.len() - i,
        {
            let b = data[i];
            if b < 32 && b != 10 && b != 9 {
                return true;
            }
            i = i + 1;
        }
        false
    }
}

impl AccumulatorView {
    /// The direction with its analyzer in another state.
    pub open spec fn at(self, analyzer: Analyzer) -> AccumulatorView {
        AccumulatorView { analyzer, ..self }
    }

    /// The analyzer of a direction goes through the data as it would alone.
    pub proof fn lemma_frames_follow(self, r: RendererView, data: Seq<u8>)
        ensures
            self.frame_chunks(r, data).0.analyzer == self.analyzer.run(data),
        decreases data.len(), (if self.analyzer.can_step(Seq::empty()) {
            1nat
        } else {
            0nat
        }),
    {
        if self.analyzer.can_step(data) {
            let n = self.analyzer.step_len(data) as int;
            let analyzer = self.analyzer.step_state(data);
            let next = self.at(analyzer).after_chunk(r, data.take(n));
            next.0.at(analyzer).lemma_frames_follow(next.1, data.skip(n));
        }
    }

    /// After a violation of the protocol nothing is shown any more.
    pub proof fn lemma_error_shows_nothing(self, r: RendererView, data: Seq<u8>)
        requires
            self.analyzer is Error,
        ensures
            self.frame_chunks(r, data) == (self, r),
        decreases data.len(),
    {
        if data.len() > 0 {
            let n = self.analyzer.step_len(data) as int;
            assert(self.at(Analyzer::Error) == self);
            self.lemma_error_shows_nothing(r, data.skip(n));
        }
    }

    /// It makes no difference where a stream is cut into the pieces that
    /// arrive: what is shown, and what is kept for later, after `a` and then
    /// `b` have arrived is what it is after both have arrived in one piece.
    /// So a block or a message is shown once, when its last byte has arrived,
    /// however many pieces it arrives in.
    pub proof fn lemma_frames_cut(self, r: RendererView, a: Seq<u8>, b: Seq<u8>)
        requires
            self.analyzer.wf(),
        ensures
            self.frame_chunks(r, a + b) == self.frame_chunks(r, a).0.frame_chunks(
                self.frame_chunks(r, a).1,
                b,
            ),
        decreases a.len(), (if self.analyzer.can_step(Seq::empty()) {
            1nat
        } else {
            0nat
        }),
    {
        let ab = a + b;
        let none = Seq::<u8>::empty();
        let state = self.analyzer;
        if !state.can_step(a) {
            assert(ab =~= b);
        } else if b.len() == 0 {
            assert(ab =~= a);
            self.lemma_frames_follow(r, a);
            state.lemma_chunks_concat(a);
        } else if state is Error {
            self.lemma_error_shows_nothing(r, a);
            self.lemma_error_shows_nothing(r, b);
            self.lemma_error_shows_nothing(r, ab);
        } else {
            let n1 = state.step_len(a) as int;
            let s1 = state.step_state(a);
            state.lemma_step(a);
            let first = self.at(s1).after_chunk(r, a.take(n1));
            let x = first.0.at(s1);
            let same = match state {
                Analyzer::Head { .. } => a.len() >= 2,
                Analyzer::Body { still_needed, .. } => still_needed <= a.len(),
                _ => true,
            };
            if same {
                assert(state.step_len(ab) == n1);
                assert(state.step_state(ab) == s1);
                assert(ab.take(n1) =~= a.take(n1));
                assert(ab.skip(n1) =~= a.skip(n1) + b);
                x.lemma_frames_cut(first.1, a.skip(n1), b);
            } else {
                // the step on `a` alone stops where `a` ends
                assert(a.skip(n1) =~= none);
                assert(!s1.can_step(none));
                assert(x.analyzer == s1);
                assert(x.frame_chunks(first.1, none) == (x, first.1));
                assert(self.frame_chunks(r, a) == x.frame_chunks(first.1, a.skip(n1)));
                let n = state.step_len(ab) as int;
                let t = state.step_state(ab);
                match state {
                    Analyzer::Head { .. } => {
                        assert(x == self.at(s1));
                        assert(s1.step_len(b) == 1);
                        assert(s1.step_state(b) == t);
                        assert(ab.skip(2) =~= b.skip(1));
                        assert(!t.spec_was_body());
                        assert(x.at(t) == self.at(t));
                    },
                    Analyzer::Body { still_needed, len, last } => {
                        let rest = (still_needed - a.len()) as int;
                        assert(a.take(n1) =~= a);
                        assert(x == (AccumulatorView { buf: self.buf + a, ..self.at(s1) }));
                        assert(first.1 == r);
                        assert(t.spec_was_body());
                        if still_needed <= ab.len() {
                            assert(s1.step_len(b) == rest);
                            assert(s1.step_state(b) == t);
                            assert(ab.skip(n) =~= b.skip(rest));
                            assert(self.buf + ab.take(n) =~= (self.buf + a) + b.take(rest));
                            let whole = self.at(t).after_chunk(r, ab.take(n));
                            let parts = x.at(t).after_chunk(r, b.take(rest));
                            assert(whole.1 == parts.1);
                            assert(whole.0.at(t) == parts.0.at(t));
                        } else {
                            assert(s1.step_len(b) == b.len());
                            assert(s1.step_state(b) == t);
                            assert(ab.take(n) =~= ab);
                            assert(ab.skip(n) =~= none);
                            assert(b.skip(b.len() as int) =~= none);
                            assert(b.take(b.len() as int) =~= b);
                            assert(!t.can_step(none));
                            assert(self.buf + ab =~= (self.buf + a) + b);
                            let whole = self.at(t).after_chunk(r, ab);
                            let parts = x.at(t).after_chunk(r, b);
                            assert(whole.1 == parts.1);
                            assert(whole.0.at(t) == parts.0.at(t));
                        }
                    },
                    _ => {},
                }
            }
        }
    }
}

} // verus!
