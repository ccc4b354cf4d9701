//! Showing bytes as rows of hex digits.

use crate::render::{Renderer, RendererView, Style};
use crate::text::{digit, hex_pair};
use vstd::prelude::*;
use vstd::string::StringSliceAdditionalSpecFns;

verus! {

/// Number of bytes in a full row.
pub const ROW: usize = 16;

/// So many blanks.
pub open spec fn blanks(n: nat) -> Seq<u8> {
    Seq::new(n, |i: int| 32u8)
}

/// The extra room before column `i`, which sets off groups of four and
/// eight columns, and the readable form from the hex digits.
pub open spec fn extra_space(i: int) -> nat {
    if i == 4 || i == 12 {
        1
    } else if i == 8 {
        2
    } else if i == 16 {
        4
    } else {
        0
    }
}

/// How a byte is shown in the readable form of a row.
pub open spec fn readable(byte: u8) -> Seq<u8> {
    if 32 <= byte <= 127 {
        seq![byte]
    } else if byte == 10 {
        "↵".spec_bytes()
    } else if byte == 9 {
        "→".spec_bytes()
    } else if byte == 0 {
        "░".spec_bytes()
    } else {
        "▒".spec_bytes()
    }
}

/// The state of the renderer after the room before column `i`. Where a run
/// of header bytes starts or ends, a bracket stands in that room.
pub open spec fn sep(r: RendererView, i: int, in_head: bool, is_head: bool) -> RendererView {
    let extra = extra_space(i);
    if !in_head && is_head {
        let spaced = r.put(blanks(extra));
        spaced.styled(Style::Header).put("⟨".spec_bytes()).styled(spaced.current_style)
    } else if in_head && !is_head {
        r.styled(Style::Header).put("⟩".spec_bytes()).styled(r.current_style).put(blanks(extra))
    } else {
        r.put(blanks(extra + 1))
    }
}

/// The state of the renderer after the hex digits of the first `n` bytes of
/// a row.
pub open spec fn hex_cells(r: RendererView, row: Seq<(u8, bool)>, n: int) -> RendererView
    decreases n,
{
    if n <= 0 {
        r
    } else {
        let before = hex_cells(r, row, n - 1);
        let in_head = n >= 2 && row[n - 2].1;
        let is_head = row[n - 1].1;
        sep(before, n - 1, in_head, is_head).styled(
            if is_head {
                Style::Header
            } else {
                Style::Normal
            },
        ).put(hex_pair(row[n - 1].0)).styled(Style::Normal)
    }
}

/// The state of the renderer after the columns `from..n` of a row that is
/// not full have been filled in.
pub open spec fn blank_cells(r: RendererView, from: int, n: int, in_head: bool) -> RendererView
    decreases n - from,
{
    if n <= from {
        r
    } else {
        sep(blank_cells(r, from, n - 1, in_head), n - 1, n - 1 == from && in_head, false).put(
            "__".spec_bytes(),
        )
    }
}

/// The state of the renderer after the readable form of the first `n`
/// bytes of a row.
pub open spec fn readable_cells(r: RendererView, row: Seq<(u8, bool)>, n: int) -> RendererView
    decreases n,
{
    if n <= 0 {
        r
    } else {
        readable_cells(r, row, n - 1).put(readable(row[n - 1].0))
    }
}

/// The state of the renderer after a row: the hex digits of its bytes, the
/// columns that are left filled in, and the bytes in readable form.
pub open spec fn row_out(r: RendererView, row: Seq<(u8, bool)>) -> RendererView {
    let last_head = row.len() > 0 && row.last().1;
    let digits = hex_cells(r, row, row.len() as int);
    let filled = blank_cells(digits, row.len() as int, 16, last_head);
    let closed = sep(filled, 16, row.len() == 16 && last_head, false);
    readable_cells(closed, row, row.len() as int).nl()
}

/// The row and the renderer after a byte has been added: a row that has
/// become full is written out.
pub open spec fn added(row: Seq<(u8, bool)>, r: RendererView, byte: u8, is_head: bool) -> (
    Seq<(u8, bool)>,
    RendererView,
) {
    let longer = row.push((byte, is_head));
    if longer.len() == 16 {
        (Seq::empty(), row_out(r, longer))
    } else {
        (longer, r)
    }
}

/// The row and the renderer after what is left of a row has been written
/// out.
pub open spec fn finished(row: Seq<(u8, bool)>, r: RendererView) -> (
    Seq<(u8, bool)>,
    RendererView,
) {
    if row.len() == 0 {
        (row, r)
    } else {
        (Seq::empty(), row_out(r, row))
    }
}

/// The row and the renderer after all of `bytes` have been added.
pub open spec fn added_all(row: Seq<(u8, bool)>, r: RendererView, bytes: Seq<u8>, is_head: bool) -> (
    Seq<(u8, bool)>,
    RendererView,
)
    decreases bytes.len(),
{
    if bytes.len() == 0 {
        (row, r)
    } else {
        let before = added_all(row, r, bytes.drop_last(), is_head);
        added(before.0, before.1, bytes.last(), is_head)
    }
}

/// A row of a hex dump that is being filled. Each byte is kept with whether
/// it belongs to a block header.
#[derive(Debug)]
pub struct Binary {
    row: Vec<(u8, bool)>,
}

impl View for Binary {
    type V = Seq<(u8, bool)>;

    closed spec fn view(&self) -> Seq<(u8, bool)> {
        self.row@
    }
}

impl Binary {
    /// Between calls, the row is never full.
    pub open spec fn wf(&self) -> bool {
        self@.len() < 16
    }

    pub fn new() -> (b: Binary)
        ensures
            b@ == Seq::<(u8, bool)>::empty(),
            b.wf(),
    {
        Binary { row: Vec::new() }
    }

    /// Add a byte to the row, and write the row out if that fills it.
    pub fn add(&mut self, byte: u8, is_head: bool, renderer: &mut Renderer)
        requires
            old(self).wf(),
            old(renderer)@.in_frame(),
        ensures
            final(self).wf(),
            final(renderer)@.in_frame(),
            (final(self)@, final(renderer)@) == added(old(self)@, old(renderer)@, byte, is_head),
    {
        self.row.push((byte, is_head));
        if self.row.len() == ROW {
            self.write_out(renderer, false)
        }
    }

    /// Write out what is left of a row.
    pub fn finish(&mut self, renderer: &mut Renderer)
        requires
            old(self).wf(),
            old(renderer)@.in_frame(),
        ensures
            final(self).wf(),
            final(renderer)@.in_frame(),
            (final(self)@, final(renderer)@) == finished(old(self)@, old(renderer)@),
    {
        if self.row.len() == 0 {
            return ;
        }
        self.write_out(renderer, true)
    }

    fn write_out(&mut self, renderer: &mut Renderer, _keep_head_state: bool)
        requires
            0 < old(self)@.len() <= 16,
            old(renderer)@.in_frame(),
        ensures
            final(self)@ == Seq::<(u8, bool)>::empty(),
            final(renderer)@ == row_out(old(renderer)@, old(self)@),
            final(renderer)@.in_frame(),
    {
        let col = self.row.len();
        let mut cur_head = false;
        let mut i: usize = 0;
        while i < col
            invariant
                i <= col,
                col == self.row@.len(),
                col <= 16,
                self.row@ == old(self).row@,
                renderer@.in_frame(),
                cur_head == (i >= 1 && self.row@[i - 1].1),
                i >= 1 ==> renderer@.at_start is None,
                renderer@ == hex_cells(old(renderer)@, self.row@, i as int),
            decreases col - i,
        {
            let (byte, is_head) = self.row[i];
            Self::put_sep(i, &mut cur_head, is_head, renderer);
            let hi = digit(byte / 16);
            let lo = digit(byte % 16);
            let style = if is_head {
                Style::Header
            } else {
                Style::Normal
            };
            renderer.style(style);
            let mut pair: Vec<u8> = Vec::new();
            pair.push(hi);
            pair.push(lo);
            assert(pair@ =~= hex_pair(byte));
            renderer.put(pair.as_slice());
            renderer.style(Style::Normal);
            i = i + 1;
        }
        let ghost digits = renderer@;
        let ghost last_head = cur_head;
        let mut k: usize = col;
        while k < 16
            invariant
                col <= k <= 16,
                renderer@.in_frame(),
                cur_head == (k == col && last_head),
                renderer@.at_start is None,
                renderer@ == blank_cells(digits, col as int, k as int, last_head),
            decreases 16 - k,
        {
            Self::put_sep(k, &mut cur_head, false, renderer);
            renderer.put("__".as_bytes());
            k = k + 1;
        }
        // if the sep includes a style change, this is its
        // chance to wrap it up
        Self::put_sep(16, &mut cur_head, false, renderer);
        let ghost closed = renderer@;
        let mut j: usize = 0;
        while j < col
            invariant
                j <= col,
                col == self.row@.len(),
                self.row@ == old(self).row@,
                renderer@.in_frame(),
                renderer@ == readable_cells(closed, self.row@, j as int),
            decreases col - j,
        {
            let (byte, _) = self.row[j];
            let shown = Self::readable(byte);
            renderer.put(shown.as_slice());
            j = j + 1;
        }
        renderer.nl();
        self.row.clear();
    }

    /// Write the room before column `i`.
    fn put_sep(i: usize, in_head: &mut bool, is_head: bool, renderer: &mut Renderer)
        requires
            i <= 16,
            old(renderer)@.in_frame(),
            *old(in_head) ==> old(renderer)@.at_start is None,
        ensures
            final(renderer)@ == sep(old(renderer)@, i as int, *old(in_head), is_head),
            final(renderer)@.in_frame(),
            final(renderer)@.at_start is None,
            *final(in_head) == is_head,
    {
        let extra: usize = if i == 4 || i == 12 {
            1
        } else if i == 8 {
            2
        } else if i == 16 {
            4
        } else {
            0
        };
        let (open, close) = ("⟨", "⟩");
        if !*in_head && is_head {
            let spaces = Self::spaces(extra);
            renderer.put(spaces.as_slice());
            let old_style = renderer.style(Style::Header);
            renderer.put(open.as_bytes());
            renderer.style(old_style);
        } else if *in_head && !is_head {
            let old_style = renderer.style(Style::Header);
            renderer.put(close.as_bytes());
            renderer.style(old_style);
            let spaces = Self::spaces(extra);
            renderer.put(spaces.as_slice());
        } else {
            let spaces = Self::spaces(extra + 1);
            renderer.put(spaces.as_slice());
        }
        *in_head = is_head;
    }

    /// So many blanks.
    fn spaces(n: usize) -> (s: Vec<u8>)
        ensures
            s@ == blanks(n as nat),
    {
        let mut s: Vec<u8> = Vec::new();
        let mut i: usize = 0;
        while i < n
            invariant
                i <= n,
                s@ == blanks(i as nat),
            decreases n - i,
        {
            s.push(32);
            assert(s@ =~= blanks((i + 1) as nat));
            i = i + 1;
        }
        assert(blanks(0) =~= Seq::<u8>::empty());
        s
    }

    /// How a byte is shown in the readable form of a row.
    pub fn readable(byte: u8) -> (shown: Vec<u8>)
        ensures
            shown@ == readable(byte),
    {
        let mut shown: Vec<u8> = Vec::new();
        if 32 <= byte && byte <= 127 {
            shown.push(byte);
            assert(shown@ =~= seq![byte]);
        } else {
            let s = if byte == 10 {
                "↵"
            } else if byte == 9 {
                "→"
            } else if byte == 0 {
                "░"
            } else {
                "▒"
            };
            crate::text::push_str(&mut shown, s);
            assert(shown@ =~= s.spec_bytes());
        }
        shown
    }
}

} // verus!
