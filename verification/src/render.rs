//! Laying out the transcript.
//!
//! The [`Renderer`] turns messages and framed dumps into the bytes that are
//! shown to the user. It collects them; whoever owns the terminal takes them
//! out with [`Renderer::take_output`] and writes them. It does not look at
//! a clock either: whoever owns one tells it the time with
//! [`Renderer::tick`].

use crate::event::{label_of, ConnectionId, Direction};
use crate::text::{push_bytes, push_str};
use vstd::prelude::*;
use vstd::string::StringSliceAdditionalSpecFns;

verus! {

/// How text is shown.
#[derive(Debug, Clone, Copy, PartialEq, Eq, PartialOrd, Ord, Structural)]
pub enum Style {
    Normal,
    Error,
    Frame,
    Header,
}

/// The escape sequence that switches a terminal to a style.
pub open spec fn escape_sequence(style: Style) -> Seq<u8> {
    match style {
        Style::Normal => "\u{1b}[m".spec_bytes(),
        Style::Header => "\u{1b}[1m".spec_bytes(),
        Style::Frame => "\u{1b}[36m".spec_bytes(),
        Style::Error => "\u{1b}[31m".spec_bytes(),
    }
}

/// After a pause of this many milliseconds, an empty line sets off what
/// follows from what came before.
pub const THRESHOLD: u64 = 500;

/// Which connection and direction a line is about, if any.
#[derive(Debug, Clone, Copy, PartialEq, Eq, Structural)]
pub struct IdStream(pub Option<ConnectionId>, pub Option<Direction>);

impl IdStream {
    /// The text that marks a line: a blank and the id, a blank and the
    /// direction, as far as they are given.
    pub open spec fn spec_text(self) -> Seq<u8> {
        (match self.0 {
            Some(id) => seq![32u8] + id.spec_text(),
            None => Seq::empty(),
        }) + (match self.1 {
            Some(dir) => seq![32u8] + label_of(dir).spec_bytes(),
            None => Seq::empty(),
        })
    }

    /// Mark a line as being about a connection and a direction.
    pub fn of(id: ConnectionId, direction: Direction) -> (s: IdStream)
        ensures
            s == IdStream(Some(id), Some(direction)),
    {
        IdStream(Some(id), Some(direction))
    }

    /// Append the mark to `out`.
    pub fn push_text(&self, out: &mut Vec<u8>)
        ensures
            final(out)@ == old(out)@ + self.spec_text(),
    {
        if let Some(id) = self.0 {
            out.push(32);
            id.push_text(out);
        }
        let ghost mid = out@;
        if let Some(dir) = self.1 {
            out.push(32);
            push_str(out, dir.label());
        }
        proof {
            let first = match self.0 {
                Some(id) => seq![32u8] + id.spec_text(),
                None => Seq::empty(),
            };
            assert(mid =~= old(out)@ + first);
            assert(out@ =~= old(out)@ + self.spec_text());
        }
    }
}

/// The items of a header or footer: a blank before the first one, a comma
/// and a blank before each of the others.
pub open spec fn items_text(items: Seq<Seq<u8>>) -> Seq<u8>
    decreases items.len(),
{
    if items.len() == 0 {
        Seq::empty()
    } else if items.len() == 1 {
        seq![32u8] + items[0]
    } else {
        items_text(items.drop_last()) + seq![44u8, 32] + items.last()
    }
}

/// The bytes of each of `items`.
pub open spec fn views(items: Seq<Vec<u8>>) -> Seq<Seq<u8>> {
    items.map_values(|item: Vec<u8>| item@)
}

/// The state of a [`Renderer`], as the contracts see it.
pub struct RendererView {
    /// Whether styles are shown, by escape sequences.
    pub colored: bool,
    /// The style that the terminal is in.
    pub current_style: Style,
    /// Whether the next byte is the first of its line, and if so, the style
    /// to take up after the edge of the frame has been drawn.
    pub at_start: Option<Style>,
    /// The bytes that have been produced and not yet taken out.
    pub out: Seq<u8>,
    /// The time as it was last told, in milliseconds.
    pub now: u64,
    /// The time at which a message or a frame was last completed.
    pub last_time: Option<u64>,
}

impl RendererView {
    /// The state after `bytes` have been produced.
    pub open spec fn wrote(self, bytes: Seq<u8>) -> RendererView {
        RendererView { out: self.out + bytes, ..self }
    }

    /// The state after a change to `style`.
    pub open spec fn styled(self, style: Style) -> RendererView {
        if style == self.current_style {
            self
        } else if self.colored {
            RendererView { current_style: style, ..self.wrote(escape_sequence(style)) }
        } else {
            RendererView { current_style: style, ..self }
        }
    }

    /// Whether content can be put: at the start of a line, the edge of the
    /// frame is about to be drawn, in the style of the frame.
    pub open spec fn in_frame(self) -> bool {
        self.at_start is Some ==> self.current_style == Style::Frame
    }

    /// The state after content has been put.
    pub open spec fn put(self, data: Seq<u8>) -> RendererView {
        match self.at_start {
            Some(style) => RendererView {
                at_start: None,
                ..self.wrote("│".spec_bytes()).styled(style)
            }.wrote(data),
            None => self.wrote(data),
        }
    }

    /// The state after the line has been ended.
    pub open spec fn nl(self) -> RendererView {
        RendererView {
            at_start: Some(self.current_style),
            ..self.styled(Style::Frame).wrote(seq![10u8])
        }
    }

    /// The state after a line that has been begun has been ended.
    pub open spec fn clear_line(self) -> RendererView {
        if self.at_start is None {
            self.nl()
        } else {
            self
        }
    }

    /// Whether the last message or frame was completed so long ago that an
    /// empty line is to set off what follows.
    pub open spec fn pause_due(self) -> bool {
        self.last_time matches Some(then) && self.now - then >= THRESHOLD
    }

    /// The state after an empty line has been produced, if one is due.
    pub open spec fn paused(self) -> RendererView {
        if self.pause_due() {
            self.wrote(seq![10u8])
        } else {
            self
        }
    }

    /// The state after a message or a frame has been completed.
    pub open spec fn completed(self) -> RendererView {
        RendererView { last_time: Some(self.now), ..self }
    }

    /// The state after a one line message.
    pub open spec fn message(self, mark: IdStream, text: Seq<u8>) -> RendererView {
        self.paused().styled(Style::Frame).wrote(
            "‣".spec_bytes() + mark.spec_text() + seq![32u8] + text + seq![10u8],
        ).styled(Style::Normal).completed()
    }

    /// The state after the line that opens a frame.
    pub open spec fn header(self, mark: IdStream, items: Seq<Seq<u8>>) -> RendererView {
        RendererView {
            at_start: Some(self.current_style),
            ..self.paused().styled(Style::Frame).wrote(
                "┌".spec_bytes() + mark.spec_text() + items_text(items) + seq![10u8],
            )
        }
    }

    /// The state after the line that closes a frame.
    pub open spec fn footer(self, items: Seq<Seq<u8>>) -> RendererView {
        self.clear_line().wrote("└".spec_bytes() + items_text(items) + seq![10u8]).styled(
            Style::Normal,
        ).completed()
    }
}

/// Lays out messages and framed dumps, with or without colors.
pub struct Renderer {
    colored: bool,
    now: u64,
    last_time: Option<u64>,
    out: Vec<u8>,
    current_style: Style,
    at_start: Option<Style>,  // if Some(s), we're at line start, style to be reset to s
}

impl View for Renderer {
    type V = RendererView;

    closed spec fn view(&self) -> RendererView {
        RendererView {
            colored: self.colored,
            current_style: self.current_style,
            at_start: self.at_start,
            out: self.out@,
            now: self.now,
            last_time: self.last_time,
        }
    }
}

impl Renderer {
    pub fn new(colored: bool) -> (r: Renderer)
        ensures
            r@ == (RendererView {
                colored,
                current_style: Style::Normal,
                at_start: Some(Style::Normal),
                out: Seq::<u8>::empty(),
                now: 0,
                last_time: None,
            }),
    {
        Renderer {
            colored,
            out: Vec::new(),
            current_style: Style::Normal,
            at_start: Some(Style::Normal),
            now: 0,
            last_time: None,
        }
    }

    /// Tell the time, in milliseconds since some fixed moment.
    pub fn tick(&mut self, now: u64)
        ensures
            final(self)@ == (RendererView { now, ..old(self)@ }),
    {
        self.now = now;
    }

    /// Take out the bytes that have been produced.
    pub fn take_output(&mut self) -> (bytes: Vec<u8>)
        ensures
            bytes@ == old(self)@.out,
            final(self)@ == (RendererView { out: Seq::<u8>::empty(), ..old(self)@ }),
    {
        let mut bytes: Vec<u8> = Vec::new();
        core::mem::swap(&mut bytes, &mut self.out);
        bytes
    }

    /// Set off what follows by an empty line if the last message or frame
    /// was completed half a second ago or more.
    fn before(&mut self)
        ensures
            final(self)@ == old(self)@.paused(),
    {
        if let Some(then) = self.last_time {
            if self.now >= then && self.now - then >= THRESHOLD {
                self.out.push(10);
                assert(self@.out =~= old(self)@.out + seq![10u8]);
            }
        }
    }

    /// Note the time at which a message or a frame has been completed.
    fn after(&mut self)
        ensures
            final(self)@ == old(self)@.completed(),
    {
        self.last_time = Some(self.now);
    }

    /// Show a one line message. It is set off by an empty line if the last
    /// message or frame was completed half a second ago or more.
    pub fn message(&mut self, id: Option<ConnectionId>, direction: Option<Direction>, message: &[u8])
        ensures
            final(self)@ == old(self)@.message(IdStream(id, direction), message@),
    {
        self.before();
        self.style(Style::Frame);
        let ghost mid = self@;
        push_str(&mut self.out, "‣");
        IdStream(id, direction).push_text(&mut self.out);
        self.out.push(32);
        push_bytes(&mut self.out, message);
        self.out.push(10);
        proof {
            assert(self@.out =~= mid.out + ("‣".spec_bytes() + IdStream(id, direction).spec_text()
                + seq![32u8] + message@ + seq![10u8]));
        }
        self.style(Style::Normal);
        self.after();
    }

    /// Append the items of a header or footer.
    fn push_items(&mut self, items: &Vec<Vec<u8>>)
        ensures
            final(self)@ == old(self)@.wrote(items_text(views(items@))),
    {
        let ghost all = views(items@);
        let mut i: usize = 0;
        proof {
            assert(all.take(0) =~= Seq::<Seq<u8>>::empty());
            assert(self@.out =~= old(self)@.out + items_text(all.take(0)));
        }
        while i < items.len()
            invariant
                i <= items@.len(),
                all == views(items@),
                self@ == old(self)@.wrote(items_text(all.take(i as int))),
            decreases items@.len() - i,
        {
            let ghost prior = self@.out;
            if i == 0 {
                self.out.push(32);
            } else {
                self.out.push(44);
                self.out.push(32);
            }
            push_bytes(&mut self.out, items[i].as_slice());
            proof {
                let upto = all.take(i + 1);
                assert(upto.drop_last() =~= all.take(i as int));
                assert(upto.last() == items@[i as int]@);
                if i == 0 {
                    assert(self@.out =~= prior + (seq![32u8] + items@[0]@));
                    assert(items_text(all.take(0)) =~= Seq::<u8>::empty());
                    assert(self@.out =~= old(self)@.out + items_text(upto));
                } else {
                    assert(self@.out =~= prior + (seq![44u8, 32] + items@[i as int]@));
                    assert(self@.out =~= old(self)@.out + items_text(upto));
                }
            }
            i = i + 1;
        }
        proof {
            assert(all.take(i as int) =~= all);
        }
    }

    /// Open a frame. The line that opens it is set off by an empty line if
    /// the last message or frame was completed half a second ago or more.
    pub fn header(&mut self, id: ConnectionId, direction: Direction, items: &Vec<Vec<u8>>)
        ensures
            final(self)@ == old(self)@.header(IdStream(Some(id), Some(direction)), views(items@)),
            final(self)@.in_frame(),
    {
        self.before();
        let old_style = self.style(Style::Frame);
        let ghost mid = self@;
        push_str(&mut self.out, "┌");
        IdStream::of(id, direction).push_text(&mut self.out);
        let ghost marked = self@;
        self.push_items(items);
        self.out.push(10);
        self.at_start = Some(old_style);
        proof {
            let mark = IdStream(Some(id), Some(direction));
            assert(marked.out =~= mid.out + ("┌".spec_bytes() + mark.spec_text()));
            assert(self@.out =~= mid.out + ("┌".spec_bytes() + mark.spec_text() + items_text(
                views(items@),
            ) + seq![10u8]));
        }
    }

    /// Close a frame.
    pub fn footer(&mut self, items: &Vec<Vec<u8>>)
        requires
            old(self)@.in_frame(),
        ensures
            final(self)@ == old(self)@.footer(views(items@)),
    {
        self.clear_line();
        let ghost mid = self@;
        push_str(&mut self.out, "└");
        self.push_items(items);
        self.out.push(10);
        proof {
            assert(self@.out =~= mid.out + ("└".spec_bytes() + items_text(views(items@)) + seq![
                10u8,
            ]));
        }
        self.style(Style::Normal);
        self.after();
    }

    /// Put content into the frame. At the start of a line, the edge of the
    /// frame is drawn first.
    pub fn put(&mut self, data: &[u8])
        requires
            old(self)@.in_frame(),
        ensures
            final(self)@ == old(self)@.put(data@),
            final(self)@.at_start is None,
            final(self)@.in_frame(),
    {
        if let Some(style) = self.at_start {
            push_str(&mut self.out, "│");
            self.style(style);
            self.at_start = None;
        }
        push_bytes(&mut self.out, data);
    }

    /// End the line, if one has been begun.
    pub fn clear_line(&mut self)
        requires
            old(self)@.in_frame(),
        ensures
            final(self)@ == old(self)@.clear_line(),
            final(self)@.at_start is Some,
            final(self)@.current_style == Style::Frame,
    {
        if self.at_start.is_none() {
            self.nl();
        }
    }

    /// End the line.
    pub fn nl(&mut self)
        ensures
            final(self)@ == old(self)@.nl(),
            final(self)@.at_start is Some,
            final(self)@.current_style == Style::Frame,
    {
        let old_style = self.style(Style::Frame);
        let ghost mid = self@;
        self.out.push(10);
        self.at_start = Some(old_style);
        assert(self@.out =~= mid.out + seq![10u8]);
    }

    /// Change the style. Returns the style that was in use.
    pub fn style(&mut self, style: Style) -> (previous: Style)
        ensures
            final(self)@ == old(self)@.styled(style),
            previous == old(self)@.current_style,
    {
        if style == self.current_style {
            return style;
        }
        if self.colored {
            self.write_style(style);
        }
        let previous = self.current_style;
        self.current_style = style;
        previous
    }

    fn write_style(&mut self, style: Style)
        ensures
            final(self)@ == old(self)@.wrote(escape_sequence(style)),
    {
        let escape_sequence = match style {
            Style::Normal => "\u{1b}[m",
            Style::Header => "\u{1b}[1m",
            Style::Frame => "\u{1b}[36m",
            Style::Error => "\u{1b}[31m",
        };
        push_str(&mut self.out, escape_sequence);
    }
}

} // verus!
