//! A text buffer and its cursor.
//!
//! A buffer is a non-empty list of lines plus one cursor. Every operation
//! clamps the cursor itself, so none of them can fail; the viewport
//! dimensions the clamp needs are passed in as a plain value, never queried
//! from a terminal here.

use vstd::prelude::*;

verus! {

/// Dimensions of the visible display area, injected into every operation
/// that clamps the cursor.
#[derive(Clone, Copy, PartialEq, Eq, Structural, Debug)]
pub struct Viewport {
    pub width: u16,
    pub height: u16,
}

impl Viewport {
    /// At least two rows are needed: the bottom row is reserved for the
    /// status line, so text rows are clamped to `height - 2`.
    pub open spec fn wf(self) -> bool {
        self.height >= 2
    }
}

/// A position inside a buffer. `desired_col` remembers the last column the
/// user picked horizontally, so vertical moves across shorter lines can
/// come back to it.
#[derive(Clone, Copy, PartialEq, Eq, Structural, Debug)]
pub struct Cursor {
    pub col: u16,
    pub row: u16,
    pub desired_col: u16,
}

/// One text buffer: a name (empty when unnamed), a non-empty list of lines,
/// and the cursor that belongs to it.
#[derive(Debug)]
pub struct Buffer {
    pub name: String,
    pub lines: Vec<Vec<char>>,
    pub cursor: Cursor,
}

impl Buffer {
    /// The text of line `i`.
    pub open spec fn line(self, i: int) -> Seq<char> {
        self.lines@[i]@
    }

    /// How many lines the buffer holds.
    pub open spec fn line_count(self) -> int {
        self.lines@.len() as int
    }

    /// There is always at least one line, and every coordinate the cursor
    /// can need fits in a `u16`.
    pub open spec fn wf(self) -> bool {
        &&& 1 <= self.lines@.len() <= u16::MAX as int
        &&& forall|i: int|
            0 <= i < self.lines@.len() ==> (#[trigger] self.lines@[i])@.len() <= u16::MAX as int
    }

    /// The cursor sits on an existing line, no further right than one past
    /// its last character (it may equal the length, to append there).
    pub open spec fn cursor_in_lines(self) -> bool {
        &&& (self.cursor.row as int) < self.line_count()
        &&& self.cursor.col as int <= self.line(self.cursor.row as int).len()
    }

    /// The same buffer with another cursor.
    pub open spec fn with_cursor(self, c: Cursor) -> Buffer {
        Buffer { name: self.name, lines: self.lines, cursor: c }
    }

    /// Where clamping puts the cursor: a column beyond the viewport width is
    /// pulled back to the width, otherwise a row beyond the viewport's text
    /// area is pulled up to `height - 2`; then the row is capped at the last
    /// line and the column at the landing line's length. `desired_col` is
    /// never touched by clamping.
    pub open spec fn clamped_cursor(self, vp: Viewport) -> Cursor {
        let c0: int = if self.cursor.col as int > vp.width as int {
            vp.width as int
        } else {
            self.cursor.col as int
        };
        let r0: int = if self.cursor.col as int > vp.width as int {
            self.cursor.row as int
        } else if self.cursor.row as int > vp.height as int - 2 {
            vp.height as int - 2
        } else {
            self.cursor.row as int
        };
        let r1: int = if r0 > self.line_count() - 1 {
            self.line_count() - 1
        } else {
            r0
        };
        let c1: int = if c0 > self.line(r1).len() as int {
            self.line(r1).len() as int
        } else {
            c0
        };
        Cursor { col: c1 as u16, row: r1 as u16, desired_col: self.cursor.desired_col }
    }

    /// The cursor after `cursor_up`: one row up towards the desired column,
    /// clamped; at the top row nothing moves.
    pub open spec fn cursor_up_spec(self, vp: Viewport) -> Cursor {
        if self.cursor.row == 0 {
            self.cursor
        } else {
            self.with_cursor(
                Cursor {
                    col: self.cursor.desired_col,
                    row: (self.cursor.row - 1) as u16,
                    desired_col: self.cursor.desired_col,
                },
            ).clamped_cursor(vp)
        }
    }

    /// The cursor after `cursor_down`: one row down towards the desired
    /// column, clamped.
    pub open spec fn cursor_down_spec(self, vp: Viewport) -> Cursor {
        self.with_cursor(
            Cursor {
                col: self.cursor.desired_col,
                row: (self.cursor.row + 1) as u16,
                desired_col: self.cursor.desired_col,
            },
        ).clamped_cursor(vp)
    }

    /// The cursor after `cursor_left`: one column left, which becomes the new
    /// desired column, clamped; at column 0 nothing moves.
    pub open spec fn cursor_left_spec(self, vp: Viewport) -> Cursor {
        if self.cursor.col == 0 {
            self.cursor
        } else {
            self.with_cursor(
                Cursor {
                    col: (self.cursor.col - 1) as u16,
                    row: self.cursor.row,
                    desired_col: (self.cursor.col - 1) as u16,
                },
            ).clamped_cursor(vp)
        }
    }

    /// The cursor after `cursor_right`: one column right, which becomes the
    /// new desired column, clamped.
    pub open spec fn cursor_right_spec(self, vp: Viewport) -> Cursor {
        self.with_cursor(
            Cursor {
                col: (self.cursor.col + 1) as u16,
                row: self.cursor.row,
                desired_col: (self.cursor.col + 1) as u16,
            },
        ).clamped_cursor(vp)
    }

    /// The cursor after `cursor_to_start`: column 0, everything else as it was.
    pub open spec fn cursor_to_start_spec(self) -> Cursor {
        Cursor { col: 0, row: self.cursor.row, desired_col: self.cursor.desired_col }
    }

    /// The cursor after `cursor_to_end`: the current line's length, everything
    /// else as it was.
    pub open spec fn cursor_to_end_spec(self) -> Cursor {
        Cursor {
            col: self.line(self.cursor.row as int).len() as u16,
            row: self.cursor.row,
            desired_col: self.cursor.desired_col,
        }
    }

    /// `b` is `a` with an empty line inserted directly below `a`'s cursor
    /// row; the cursor itself is untouched.
    pub open spec fn line_inserted_below(a: Buffer, b: Buffer) -> bool {
        &&& b.lines@.len() == a.lines@.len() + 1
        &&& forall|i: int| #![auto] 0 <= i <= a.cursor.row as int ==> b.lines@[i] == a.lines@[i]
        &&& b.line(a.cursor.row as int + 1).len() == 0
        &&& forall|i: int| #![auto]
            a.cursor.row as int + 1 < i < b.lines@.len() ==> b.lines@[i] == a.lines@[i - 1]
    }

    /// `b` is `a` with `c` inserted at `a`'s cursor position; the cursor is
    /// untouched — callers move right afterwards.
    pub open spec fn char_inserted(a: Buffer, b: Buffer, c: char) -> bool {
        &&& b.lines@.len() == a.lines@.len()
        &&& b.line(a.cursor.row as int) == a.line(a.cursor.row as int).insert(
            a.cursor.col as int,
            c,
        )
        &&& forall|i: int| #![auto]
            0 <= i < a.lines@.len() && i != a.cursor.row as int ==> b.lines@[i] == a.lines@[i]
    }

    /// `b` is `a` with the character left of the cursor removed, when there
    /// is one; with the cursor at column 0 nothing changes.
    pub open spec fn char_deleted(a: Buffer, b: Buffer) -> bool {
        if 0 < a.cursor.col as int && a.cursor.col as int <= a.line(a.cursor.row as int).len() {
            &&& b.lines@.len() == a.lines@.len()
            &&& b.line(a.cursor.row as int) == a.line(a.cursor.row as int).remove(
                a.cursor.col as int - 1,
            )
            &&& forall|i: int| #![auto]
                0 <= i < a.lines@.len() && i != a.cursor.row as int ==> b.lines@[i] == a.lines@[i]
        } else {
            b.lines == a.lines
        }
    }

    /// All lines joined with a newline between consecutive lines.
    pub open spec fn joined(lines: Seq<Vec<char>>) -> Seq<char>
        decreases lines.len(),
    {
        if lines.len() == 0 {
            Seq::empty()
        } else if lines.len() == 1 {
            lines[0]@
        } else {
            Self::joined(lines.drop_last()).push('\n') + lines.last()@
        }
    }

    /// Pull the cursor back into the viewport and the buffer's lines.
    fn clamp_cursor(&mut self, vp: Viewport)
        requires
            old(self).wf(),
            vp.wf(),
        ensures
            final(self).cursor == old(self).clamped_cursor(vp),
            final(self).lines == old(self).lines,
            final(self).name == old(self).name,
    {
        if self.cursor.col > vp.width {
            self.cursor.col = vp.width;
        } else if self.cursor.row > vp.height - 2 {
            self.cursor.row = vp.height - 2;
        }
        let last_row: u16 = (self.lines.len() - 1) as u16;
        if self.cursor.row > last_row {
            self.cursor.row = last_row;
        }
        let line_len: u16 = self.lines[self.cursor.row as usize].len() as u16;
        if self.cursor.col > line_len {
            self.cursor.col = line_len;
        }
    }

    /// Move one row up towards the desired column; a no-op at the top row.
    pub fn cursor_up(&mut self, vp: Viewport)
        requires
            old(self).wf(),
            vp.wf(),
        ensures
            final(self).cursor == old(self).cursor_up_spec(vp),
            final(self).lines == old(self).lines,
            final(self).name == old(self).name,
    {
        if self.cursor.row > 0 {
            self.cursor.row = self.cursor.row - 1;
            self.cursor.col = self.cursor.desired_col;
            self.clamp_cursor(vp);
        }
    }

    /// Move one row down towards the desired column; clamping keeps the row
    /// on the last line when there is nothing below.
    pub fn cursor_down(&mut self, vp: Viewport)
        requires
            old(self).wf(),
            vp.wf(),
            old(self).cursor.row < u16::MAX,
        ensures
            final(self).cursor == old(self).cursor_down_spec(vp),
            final(self).lines == old(self).lines,
            final(self).name == old(self).name,
    {
        self.cursor.row = self.cursor.row + 1;
        self.cursor.col = self.cursor.desired_col;
        self.clamp_cursor(vp);
    }

    /// Move one column left, remembering the new column as the desired one;
    /// a no-op at column 0.
    pub fn cursor_left(&mut self, vp: Viewport)
        requires
            old(self).wf(),
            vp.wf(),
        ensures
            final(self).cursor == old(self).cursor_left_spec(vp),
            final(self).lines == old(self).lines,
            final(self).name == old(self).name,
    {
        if self.cursor.col > 0 {
            self.cursor.col = self.cursor.col - 1;
            self.cursor.desired_col = self.cursor.col;
            self.clamp_cursor(vp);
        }
    }

    /// Move one column right, remembering the new column as the desired one;
    /// clamping pulls the cursor back when it passes the line's end.
    pub fn cursor_right(&mut self, vp: Viewport)
        requires
            old(self).wf(),
            vp.wf(),
            old(self).cursor.col < u16::MAX,
        ensures
            final(self).cursor == old(self).cursor_right_spec(vp),
            final(self).lines == old(self).lines,
            final(self).name == old(self).name,
    {
        self.cursor.col = self.cursor.col + 1;
        self.cursor.desired_col = self.cursor.col;
        self.clamp_cursor(vp);
    }

    /// Jump to column 0 of the current line.
    pub fn cursor_to_start(&mut self)
        ensures
            final(self).cursor == old(self).cursor_to_start_spec(),
            final(self).lines == old(self).lines,
            final(self).name == old(self).name,
    {
        self.cursor.col = 0;
    }

    /// Jump one past the last character of the current line.
    pub fn cursor_to_end(&mut self)
        requires
            old(self).wf(),
            (old(self).cursor.row as int) < old(self).line_count(),
        ensures
            final(self).cursor == old(self).cursor_to_end_spec(),
            final(self).lines == old(self).lines,
            final(self).name == old(self).name,
    {
        self.cursor.col = self.lines[self.cursor.row as usize].len() as u16;
    }

    /// Insert `c` at the cursor position. The cursor itself does not move;
    /// callers move right afterwards.
    pub fn insert_char(&mut self, c: char)
        requires
            old(self).cursor_in_lines(),
        ensures
            Buffer::char_inserted(*old(self), *final(self), c),
            final(self).cursor == old(self).cursor,
            final(self).name == old(self).name,
    {
        let row: usize = self.cursor.row as usize;
        let col: usize = self.cursor.col as usize;
        let line = &mut self.lines[row];
        line.insert(col, c);
    }

    /// Remove the character just left of the cursor; a no-op at column 0.
    /// The cursor itself does not move; callers move left afterwards.
    pub fn delete_char(&mut self)
        requires
            (old(self).cursor.row as int) < old(self).line_count(),
        ensures
            Buffer::char_deleted(*old(self), *final(self)),
            final(self).cursor == old(self).cursor,
            final(self).name == old(self).name,
    {
        let row: usize = self.cursor.row as usize;
        let col: usize = self.cursor.col as usize;
        if col > 0 && col <= self.lines[row].len() {
            let line = &mut self.lines[row];
            line.remove(col - 1);
        }
    }

    /// Insert an empty line directly below the cursor row. The cursor does
    /// not move; callers move down and to the line start afterwards.
    pub fn insert_line(&mut self)
        requires
            (old(self).cursor.row as int) < old(self).line_count(),
        ensures
            Buffer::line_inserted_below(*old(self), *final(self)),
            final(self).cursor == old(self).cursor,
            final(self).name == old(self).name,
    {
        let at: usize = self.cursor.row as usize + 1;
        self.lines.insert(at, Vec::new());
    }

    /// All lines of the buffer, newline-joined, ready to be persisted.
    pub fn contents(&self) -> (out: Vec<char>)
        ensures
            out@ == Buffer::joined(self.lines@),
    {
        let mut out: Vec<char> = Vec::new();
        let mut i: usize = 0;
        while i < self.lines.len()
            invariant
                i <= self.lines@.len(),
                out@ == Buffer::joined(self.lines@.take(i as int)),
            decreases self.lines@.len() - i,
        {
            if i > 0 {
                out.push('\n');
            }
            let line = &self.lines[i];
            out.extend_from_slice(line.as_slice());
            proof {
                assert(self.lines@.take(i + 1).drop_last() =~= self.lines@.take(i as int));
                assert(self.lines@.take(i + 1).last() == self.lines@[i as int]);
            }
            i = i + 1;
        }
        proof {
            assert(self.lines@.take(self.lines@.len() as int) =~= self.lines@);
        }
        out
    }
}

/// A clamped cursor always lands on an existing line, no further right than
/// the landing line's length.
pub proof fn lemma_clamped_in_lines(b: Buffer, vp: Viewport)
    requires
        b.wf(),
        vp.wf(),
    ensures
        b.with_cursor(b.clamped_cursor(vp)).cursor_in_lines(),
{
}

/// Every cursor move lands inside the buffer's lines, each under the
/// condition its operation needs.
pub proof fn lemma_moves_stay_in_lines(b: Buffer, vp: Viewport)
    requires
        b.wf(),
        vp.wf(),
    ensures
        b.cursor_in_lines() ==> b.with_cursor(b.cursor_up_spec(vp)).cursor_in_lines(),
        b.cursor.row < u16::MAX ==> b.with_cursor(b.cursor_down_spec(vp)).cursor_in_lines(),
        b.cursor_in_lines() ==> b.with_cursor(b.cursor_left_spec(vp)).cursor_in_lines(),
        b.cursor.col > 0 ==> b.with_cursor(b.cursor_left_spec(vp)).cursor_in_lines(),
        b.cursor.col < u16::MAX ==> b.with_cursor(b.cursor_right_spec(vp)).cursor_in_lines(),
        b.cursor_in_lines() ==> b.with_cursor(b.cursor_to_start_spec()).cursor_in_lines(),
        (b.cursor.row as int) < b.line_count() ==> b.with_cursor(
            b.cursor_to_end_spec(),
        ).cursor_in_lines(),
{
    if b.cursor.row > 0 {
        lemma_clamped_in_lines(
            b.with_cursor(
                Cursor {
                    col: b.cursor.desired_col,
                    row: (b.cursor.row - 1) as u16,
                    desired_col: b.cursor.desired_col,
                },
            ),
            vp,
        );
    }
    if b.cursor.row < u16::MAX {
        lemma_clamped_in_lines(
            b.with_cursor(
                Cursor {
                    col: b.cursor.desired_col,
                    row: (b.cursor.row + 1) as u16,
                    desired_col: b.cursor.desired_col,
                },
            ),
            vp,
        );
    }
    if b.cursor.col > 0 {
        lemma_clamped_in_lines(
            b.with_cursor(
                Cursor {
                    col: (b.cursor.col - 1) as u16,
                    row: b.cursor.row,
                    desired_col: (b.cursor.col - 1) as u16,
                },
            ),
            vp,
        );
    }
    if b.cursor.col < u16::MAX {
        lemma_clamped_in_lines(
            b.with_cursor(
                Cursor {
                    col: (b.cursor.col + 1) as u16,
                    row: b.cursor.row,
                    desired_col: (b.cursor.col + 1) as u16,
                },
            ),
            vp,
        );
    }
}

/// Opening a line below the cursor keeps the buffer well formed, as long as
/// there was room for one more row coordinate.
pub proof fn lemma_line_inserted_wf(a: Buffer, b: Buffer)
    requires
        a.wf(),
        (a.cursor.row as int) < a.line_count(),
        a.line_count() < u16::MAX as int,
        Buffer::line_inserted_below(a, b),
    ensures
        b.wf(),
{
    assert forall|i: int| 0 <= i < b.lines@.len() implies (#[trigger] b.lines@[i])@.len()
        <= u16::MAX as int by {
        if i <= a.cursor.row as int {
            assert(b.lines@[i] == a.lines@[i]);
        } else if i == a.cursor.row as int + 1 {
        } else {
            assert(b.lines@[i] == a.lines@[i - 1]);
        }
    }
}

/// Inserting a character into a line with room keeps the buffer well formed.
pub proof fn lemma_char_inserted_wf(a: Buffer, b: Buffer, c: char)
    requires
        a.wf(),
        a.cursor_in_lines(),
        a.line(a.cursor.row as int).len() < u16::MAX as int,
        Buffer::char_inserted(a, b, c),
    ensures
        b.wf(),
{
    assert forall|i: int| 0 <= i < b.lines@.len() implies (#[trigger] b.lines@[i])@.len()
        <= u16::MAX as int by {
        if i != a.cursor.row as int {
            assert(b.lines@[i] == a.lines@[i]);
        } else {
            a.lines@[i]@.insert_ensures(a.cursor.col as int, c);
            assert(b.lines@[i]@ == a.lines@[i]@.insert(a.cursor.col as int, c));
        }
    }
}

/// Removing a character keeps the buffer well formed.
pub proof fn lemma_char_deleted_wf(a: Buffer, b: Buffer)
    requires
        a.wf(),
        (a.cursor.row as int) < a.line_count(),
        Buffer::char_deleted(a, b),
    ensures
        b.wf(),
{
    if 0 < a.cursor.col as int && a.cursor.col as int <= a.line(a.cursor.row as int).len() {
        assert forall|i: int| 0 <= i < b.lines@.len() implies (#[trigger] b.lines@[i])@.len()
            <= u16::MAX as int by {
            if i != a.cursor.row as int {
                assert(b.lines@[i] == a.lines@[i]);
            } else {
                assert(a.lines@[i]@.len() <= u16::MAX as int);
                a.lines@[i]@.remove_ensures(a.cursor.col as int - 1);
                assert(b.lines@[i]@ == a.lines@[i]@.remove(a.cursor.col as int - 1));
            }
        }
    }
}

/// A vertical move puts the column at `min(desired_col, length of the line
/// the cursor lands on)`, provided the desired column fits the viewport
/// width: moving down always, moving up whenever it moves at all (at the top
/// row `cursor_up` leaves the cursor exactly where it was).
pub proof fn lemma_vertical_move_tracks_desired_column(b: Buffer, vp: Viewport)
    requires
        b.wf(),
        vp.wf(),
        b.cursor.desired_col <= vp.width,
        b.cursor.row < u16::MAX,
    ensures
        ({
            let c = b.cursor_down_spec(vp);
            c.col as int == vstd::math::min(
                b.cursor.desired_col as int,
                b.line(c.row as int).len() as int,
            )
        }),
        b.cursor.row > 0 ==> ({
            let c = b.cursor_up_spec(vp);
            c.col as int == vstd::math::min(
                b.cursor.desired_col as int,
                b.line(c.row as int).len() as int,
            )
        }),
        b.cursor.row == 0 ==> b.cursor_up_spec(vp) == b.cursor,
{
}

/// Moving left and then immediately right restores the original row and
/// column whenever the cursor is not at a line boundary (column 0) and the
/// starting position is inside the clamping bounds of the viewport.
pub proof fn lemma_left_then_right_restores_position(b: Buffer, vp: Viewport)
    requires
        b.wf(),
        vp.wf(),
        (b.cursor.row as int) < b.line_count(),
        b.cursor.row as int <= vp.height as int - 2,
        0 < b.cursor.col,
        b.cursor.col as int <= b.line(b.cursor.row as int).len(),
        b.cursor.col <= vp.width,
    ensures
        ({
            let after_left = b.with_cursor(b.cursor_left_spec(vp));
            let back = after_left.cursor_right_spec(vp);
            back.row == b.cursor.row && back.col == b.cursor.col
        }),
{
}

/// Moving to the end of the line puts the column exactly at the line's
/// length, and moving to the start afterwards puts it at 0, whatever the
/// line's length was.
pub proof fn lemma_line_end_then_start(b: Buffer)
    requires
        b.wf(),
        (b.cursor.row as int) < b.line_count(),
    ensures
        b.cursor_to_end_spec().col as int == b.line(b.cursor.row as int).len(),
        b.with_cursor(b.cursor_to_end_spec()).cursor_to_start_spec().col == 0,
{
}

} // verus!
