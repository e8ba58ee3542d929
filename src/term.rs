use vstd::prelude::*;

use crate::text::{chars_of, push_char};

verus! {

/// One step of drawing on a terminal.
#[derive(Debug, Clone, PartialEq, Eq)]
pub enum DrawCommand {
    /// Blank the whole screen.
    Clear,
    /// Put the cursor at column `x`, row `y`.
    MoveTo(u16, u16),
    /// Write text at the cursor.
    Print(String),
}

pub enum DrawView {
    Clear,
    MoveTo(u16, u16),
    Print(Seq<char>),
}

impl View for DrawCommand {
    type V = DrawView;

    open spec fn view(&self) -> DrawView {
        match self {
            DrawCommand::Clear => DrawView::Clear,
            DrawCommand::MoveTo(x, y) => DrawView::MoveTo(*x, *y),
            DrawCommand::Print(s) => DrawView::Print(s@),
        }
    }
}

pub open spec fn commands_view(cs: Seq<DrawCommand>) -> Seq<DrawView> {
    cs.map_values(|c: DrawCommand| c@)
}

/// How text longer than a line is laid out.
#[derive(Debug, Clone, Copy, PartialEq, Eq, Structural)]
pub enum WrapMode {
    /// Continue on the following rows.
    Normal,
    /// Keep the first row only.
    Cut,
}

/// At most how many rows wrapped text may take.
pub open spec fn wrap_limit(mode: WrapMode, len: nat) -> nat {
    match mode {
        WrapMode::Normal => len,
        WrapMode::Cut => 1,
    }
}

/// How many rows `len` characters take, `width` to a row, with at most `limit` rows.
pub open spec fn wrap_rows(len: nat, width: nat, limit: nat) -> nat
    decreases len,
{
    if len == 0 || limit == 0 || width == 0 {
        0
    } else if len <= width {
        1
    } else {
        1 + wrap_rows((len - width) as nat, width, (limit - 1) as nat)
    }
}

/// At most how many rows wrapped text may take from row `y` on, within the rows a
/// terminal can address.
pub open spec fn row_limit(mode: WrapMode, len: nat, y: u16) -> nat {
    let room = (0x1_0000 - y) as nat;
    if wrap_limit(mode, len) <= room {
        wrap_limit(mode, len)
    } else {
        room
    }
}

proof fn lemma_wrap_rows_bound(len: nat, width: nat, limit: nat)
    ensures
        wrap_rows(len, width, limit) <= limit,
    decreases len,
{
    if len > width && width > 0 && limit > 0 {
        lemma_wrap_rows_bound((len - width) as nat, width, (limit - 1) as nat);
    }
}

/// `s` cut into rows of `width` characters, from row `y` on, at most `limit` rows.
pub open spec fn wrap_commands(s: Seq<char>, x: u16, y: int, width: nat, limit: nat) -> Seq<
    DrawView,
>
    decreases s.len(),
{
    if s.len() == 0 || limit == 0 || width == 0 {
        seq![]
    } else {
        let n = if s.len() <= width {
            s.len()
        } else {
            width
        };
        seq![DrawView::MoveTo(x, y as u16), DrawView::Print(s.take(n as int))] + wrap_commands(
            s.skip(n as int),
            x,
            y + 1,
            width,
            (limit - 1) as nat,
        )
    }
}

/// `n` copies of `c` in a row.
pub open spec fn repeat(c: char, n: nat) -> Seq<char> {
    Seq::new(n, |i: int| c)
}

/// A horizontal line of `length` characters starting at column `x`, row `y`.
pub open spec fn row_commands(c: char, x: u16, y: u16, length: u16) -> Seq<DrawView> {
    seq![DrawView::MoveTo(x, y), DrawView::Print(repeat(c, length as nat))]
}

/// The first `n` characters of a vertical line at column `x` starting at row `y`.
pub open spec fn column_commands(c: char, x: u16, y: u16, n: nat) -> Seq<DrawView>
    decreases n,
{
    if n == 0 {
        seq![]
    } else {
        column_commands(c, x, y, (n - 1) as nat) + seq![
            DrawView::MoveTo(x, (y + n - 1) as u16),
            DrawView::Print(seq![c]),
        ]
    }
}

pub open spec fn line_commands(c: char, x: u16, y: u16, length: u16, vertical: bool) -> Seq<
    DrawView,
> {
    if vertical {
        column_commands(c, x, y, length as nat)
    } else {
        row_commands(c, x, y, length)
    }
}

/// The first `n` rows of a filled rectangle.
pub open spec fn fill_commands(c: char, x: u16, y: u16, width: u16, n: nat) -> Seq<DrawView>
    decreases n,
{
    if n == 0 {
        seq![]
    } else {
        fill_commands(c, x, y, width, (n - 1) as nat) + row_commands(
            c,
            x,
            (y + n - 1) as u16,
            width,
        )
    }
}

/// The outline of a rectangle: top, bottom, left and right sides, in that order.
pub open spec fn border_commands(c: char, x: u16, y: u16, width: u16, height: u16) -> Seq<
    DrawView,
> {
    row_commands(c, x, y, width) + row_commands(c, x, (y + height) as u16, width)
        + column_commands(c, x, y, height as nat) + column_commands(
        c,
        (x + width) as u16,
        y,
        height as nat,
    )
}

/// A terminal screen seen as the draw commands queued for it since the last flush.
pub struct Term {
    queue: Vec<DrawCommand>,
}

impl View for Term {
    type V = Seq<DrawView>;

    closed spec fn view(&self) -> Seq<DrawView> {
        commands_view(self.queue@)
    }
}

impl Term {
    /// A terminal with nothing queued.
    pub fn new() -> (r: Term)
        ensures
            r@ == Seq::<DrawView>::empty(),
    {
        let r = Term { queue: Vec::new() };
        assert(r@ =~= Seq::<DrawView>::empty());
        r
    }

    fn queue(&mut self, c: DrawCommand)
        ensures
            final(self)@ == old(self)@.push(c@),
    {
        self.queue.push(c);
        assert(final(self)@ =~= old(self)@.push(c@));
    }

    /// Queues blanking the screen and putting the cursor in the top left corner.
    pub fn clear(&mut self)
        ensures
            final(self)@ == old(self)@ + seq![DrawView::Clear, DrawView::MoveTo(0, 0)],
    {
        self.queue(DrawCommand::Clear);
        self.queue(DrawCommand::MoveTo(0, 0));
        assert(final(self)@ =~= old(self)@ + seq![DrawView::Clear, DrawView::MoveTo(0, 0)]);
    }

    /// Hands out everything queued, in order, and empties the queue.
    pub fn flush(&mut self) -> (r: Vec<DrawCommand>)
        ensures
            commands_view(r@) == old(self)@,
            final(self)@ == Seq::<DrawView>::empty(),
    {
        let mut r = Vec::new();
        r.append(&mut self.queue);
        assert(final(self)@ =~= Seq::<DrawView>::empty());
        r
    }

    /// Queues a move of the cursor to column `x`, row `y`.
    pub fn move_cursor(&mut self, x: u16, y: u16)
        ensures
            final(self)@ == old(self)@.push(DrawView::MoveTo(x, y)),
    {
        self.queue(DrawCommand::MoveTo(x, y));
    }

    /// Queues writing `s` at the cursor.
    pub fn write(&mut self, s: &str)
        ensures
            final(self)@ == old(self)@.push(DrawView::Print(s@)),
    {
        self.queue(DrawCommand::Print(String::from_str(s)));
    }

    /// Queues writing `s` at column `x`, row `y`.
    pub fn print(&mut self, s: &str, x: u16, y: u16)
        ensures
            final(self)@ == old(self)@ + seq![DrawView::MoveTo(x, y), DrawView::Print(s@)],
    {
        self.move_cursor(x, y);
        self.write(s);
        assert(final(self)@ =~= old(self)@ + seq![DrawView::MoveTo(x, y), DrawView::Print(s@)]);
    }

    /// Queues `s` cut into rows of `max_width` characters from column `x`, row `y` down;
    /// with `WrapMode::Cut` only the first row. Rows past the last addressable one are dropped.
    pub fn print_wrap(&mut self, s: &str, x: u16, y: u16, max_width: u16, wrap_mode: WrapMode)
        requires
            max_width > 0,
        ensures
            final(self)@ == old(self)@ + wrap_commands(
                s@,
                x,
                y as int,
                max_width as nat,
                row_limit(wrap_mode, s@.len(), y),
            ),
    {
        let chars = chars_of(s);
        let len = chars.len();
        let width = max_width as usize;
        let ghost lim = row_limit(wrap_mode, s@.len(), y);
        proof {
            lemma_wrap_rows_bound(len as nat, width as nat, lim);
        }
        let most: usize = match wrap_mode {
            WrapMode::Normal => len,
            WrapMode::Cut => 1,
        };
        let room: usize = 0x1_0000 - y as usize;
        let rows: usize = if most <= room {
            most
        } else {
            room
        };
        let mut start: usize = 0;
        let mut k: usize = 0;
        assert(s@.skip(0) =~= s@);
        assert(old(self)@ + seq![] =~= old(self)@);
        while start < len && k < rows
            invariant
                chars@ == s@,
                len == chars.len(),
                width == max_width as usize,
                width > 0,
                lim == row_limit(wrap_mode, s@.len(), y),
                rows == lim,
                k <= rows,
                k <= start <= len,
                y + k + wrap_rows((len - start) as nat, width as nat, (lim - k) as nat) == y
                    + wrap_rows(len as nat, width as nat, lim),
                y + wrap_rows(len as nat, width as nat, lim) <= 0x1_0000,
                old(self)@ + wrap_commands(s@, x, y as int, width as nat, lim) == self@
                    + wrap_commands(s@.skip(start as int), x, y + k, width as nat, (lim - k) as nat),
            decreases len - start,
        {
            let ghost rest = s@.skip(start as int);
            let end = if len - start <= width {
                len
            } else {
                start + width
            };
            let mut chunk = String::new();
            let mut i = start;
            while i < end
                invariant
                    start <= i <= end <= len,
                    chars@ == s@,
                    len == chars.len(),
                    chunk@ == s@.subrange(start as int, i as int),
                decreases end - i,
            {
                push_char(&mut chunk, chars[i]);
                i = i + 1;
                assert(chunk@ =~= s@.subrange(start as int, i as int));
            }
            let ghost n = (end - start) as int;
            assert(rest.take(n) =~= s@.subrange(start as int, end as int));
            assert(rest.skip(n) =~= s@.skip(end as int));
            let row = y + k as u16;
            self.print(chunk.as_str(), x, row);
            assert(self@ + wrap_commands(s@.skip(end as int), x, y + k + 1, width as nat, (lim - k
                - 1) as nat) =~= old(self)@ + wrap_commands(s@, x, y as int, width as nat, lim));
            start = end;
            k = k + 1;
        }
        assert(wrap_commands(s@.skip(start as int), x, y + k, width as nat, (lim - k) as nat)
            =~= seq![]);
        assert(final(self)@ =~= old(self)@ + wrap_commands(s@, x, y as int, width as nat, lim));
    }

    /// Queues a line of `length` copies of `c` from column `x`, row `y`: to the right, or
    /// downwards where `vertical` holds.
    pub fn line(&mut self, c: char, x: u16, y: u16, length: u16, vertical: bool)
        requires
            vertical ==> y + length <= 0x1_0000,
        ensures
            final(self)@ == old(self)@ + line_commands(c, x, y, length, vertical),
    {
        if !vertical {
            let mut text = String::new();
            let mut i: u16 = 0;
            while i < length
                invariant
                    i <= length,
                    text@ == repeat(c, i as nat),
                decreases length - i,
            {
                push_char(&mut text, c);
                i = i + 1;
                assert(text@ =~= repeat(c, i as nat));
            }
            self.print(text.as_str(), x, y);
        } else {
            let mut text = String::new();
            push_char(&mut text, c);
            let mut off: u16 = 0;
            assert(old(self)@ + seq![] =~= old(self)@);
            while off < length
                invariant
                    off <= length,
                    y + length <= 0x1_0000,
                    text@ == seq![c],
                    self@ == old(self)@ + column_commands(c, x, y, off as nat),
                decreases length - off,
            {
                self.print(text.as_str(), x, y + off);
                off = off + 1;
                assert(self@ =~= old(self)@ + column_commands(c, x, y, off as nat));
            }
        }
    }

    /// Queues the outline of a rectangle whose corners are at columns `x` and `x + width`
    /// and rows `y` and `y + height`.
    pub fn border_rect(&mut self, c: char, x: u16, y: u16, width: u16, height: u16)
        requires
            x + width < 0x1_0000,
            y + height < 0x1_0000,
        ensures
            final(self)@ == old(self)@ + border_commands(c, x, y, width, height),
    {
        self.line(c, x, y, width, false);
        self.line(c, x, y + height, width, false);
        self.line(c, x, y, height, true);
        self.line(c, x + width, y, height, true);
        assert(final(self)@ =~= old(self)@ + border_commands(c, x, y, width, height));
    }

    /// Queues `height` rows of `width` copies of `c`, the first at column `x`, row `y`.
    pub fn fill_rect(&mut self, c: char, x: u16, y: u16, width: u16, height: u16)
        requires
            y + height <= 0x1_0000,
        ensures
            final(self)@ == old(self)@ + fill_commands(c, x, y, width, height as nat),
    {
        let mut off: u16 = 0;
        assert(old(self)@ + seq![] =~= old(self)@);
        while off < height
            invariant
                off <= height,
                y + height <= 0x1_0000,
                self@ == old(self)@ + fill_commands(c, x, y, width, off as nat),
            decreases height - off,
        {
            self.line(c, x, y + off, width, false);
            off = off + 1;
            assert(self@ =~= old(self)@ + fill_commands(c, x, y, width, off as nat));
        }
    }
}

} // verus!
