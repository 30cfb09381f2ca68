//! The mode controller: buffers, the dedicated command line, the current
//! input mode, the queue of pending commands and the status text.
//!
//! `handle_event` is the transition function of the state machine: it takes
//! one decoded key event and mutates the state exactly as the per-mode
//! transition tables say. `handle_command_queue` drains the pending command
//! tokens in FIFO order; the one effect it cannot perform itself — writing a
//! buffer to disk — is handed back to the caller as a count of requested
//! writes.

use vstd::prelude::*;

use crate::buffer::Buffer;
use crate::buffer::Cursor;
use crate::buffer::Viewport;

verus! {

/// The interpretation context for input events.
#[derive(Clone, Copy, PartialEq, Eq, Structural, Debug)]
pub enum InputMode {
    Normal,
    Insert,
    Command,
}

/// A decoded key event: everything the state machine reads from one key
/// press. Any key it does not react to arrives as `Other`.
#[derive(Clone, Copy, PartialEq, Eq, Structural, Debug)]
pub enum InputEvent {
    Esc,
    Enter,
    Backspace,
    Char(char),
    Other,
}

/// The status text shown for a mode.
pub open spec fn mode_text(m: InputMode) -> Seq<char> {
    match m {
        InputMode::Normal => "Normal"@,
        InputMode::Insert => "Insert"@,
        InputMode::Command => "Command"@,
    }
}

impl InputMode {
    /// The mode's name, for the status line.
    pub fn text(&self) -> (s: String)
        ensures
            s@ == mode_text(*self),
    {
        match self {
            InputMode::Normal => "Normal".to_owned(),
            InputMode::Insert => "Insert".to_owned(),
            InputMode::Command => "Command".to_owned(),
        }
    }
}

/// The status text reporting a command token nobody recognized.
pub open spec fn unknown_command_text() -> Seq<char> {
    "Unrecognized command..."@
}

fn unknown_command_status() -> (s: String)
    ensures
        s@ == unknown_command_text(),
{
    "Unrecognized command...".to_owned()
}

/// The characters the command line is split on.
pub open spec fn is_blank(c: char) -> bool {
    c == ' ' || c == '\t' || c == '\n' || c == '\u{c}' || c == '\r'
}

/// Helper for `tokens_of`: tokens still to be produced from `s`, given a
/// partial token `cur` already read and the tokens `acc` already produced.
pub open spec fn tokens_from(s: Seq<char>, cur: Seq<char>, acc: Seq<Seq<char>>) -> Seq<Seq<char>>
    decreases s.len(),
{
    if s.len() == 0 {
        if cur.len() == 0 {
            acc
        } else {
            acc.push(cur)
        }
    } else if is_blank(s[0]) {
        if cur.len() == 0 {
            tokens_from(s.drop_first(), Seq::empty(), acc)
        } else {
            tokens_from(s.drop_first(), Seq::empty(), acc.push(cur))
        }
    } else {
        tokens_from(s.drop_first(), cur.push(s[0]), acc)
    }
}

/// The maximal blank-free runs of `s`, in order: what splitting the command
/// line on whitespace yields.
pub open spec fn tokens_of(s: Seq<char>) -> Seq<Seq<char>> {
    tokens_from(s, Seq::empty(), Seq::empty())
}

/// Does the token consist of the single character `c`?
pub open spec fn is_cmd(t: Seq<char>, c: char) -> bool {
    t.len() == 1 && t[0] == c
}

/// Does the queue hold a quit command?
pub open spec fn quit_in(q: Seq<Vec<char>>) -> bool
    decreases q.len(),
{
    if q.len() == 0 {
        false
    } else {
        quit_in(q.drop_last()) || is_cmd(q.last()@, 'q')
    }
}

/// How many write commands the queue holds.
pub open spec fn write_count(q: Seq<Vec<char>>) -> int
    decreases q.len(),
{
    if q.len() == 0 {
        0
    } else {
        write_count(q.drop_last()) + if is_cmd(q.last()@, 'w') {
            1int
        } else {
            0int
        }
    }
}

/// Does the queue hold a token that is neither quit nor write?
pub open spec fn unknown_in(q: Seq<Vec<char>>) -> bool
    decreases q.len(),
{
    if q.len() == 0 {
        false
    } else {
        unknown_in(q.drop_last()) || (!is_cmd(q.last()@, 'q') && !is_cmd(q.last()@, 'w'))
    }
}

/// The whole editor state.
pub struct Hektor {
    pub input_mode: InputMode,
    pub active_buffer_id: usize,
    pub buffers: Vec<Buffer>,
    pub command_buffer: Buffer,
    pub command_queue: Vec<Vec<char>>,
    pub status: String,
    pub should_quit: bool,
}

impl Hektor {
    /// The buffer all input currently goes to.
    pub open spec fn active(self) -> Buffer {
        self.buffers@[self.active_buffer_id as int]
    }

    /// The text typed on the command line so far.
    pub open spec fn command_line(self) -> Seq<char> {
        self.command_buffer.lines@[0]@
    }

    /// The editor's invariant: the active buffer exists and is well formed
    /// with its cursor on its lines, and the command buffer is a well-formed
    /// single-line buffer.
    pub open spec fn wf(self) -> bool {
        &&& (self.active_buffer_id as int) < self.buffers@.len()
        &&& self.active().wf()
        &&& self.active().cursor_in_lines()
        &&& self.command_buffer.wf()
        &&& self.command_buffer.lines@.len() == 1
    }

    /// The mode became `m` and the status text says so.
    pub open spec fn entered(post: Hektor, m: InputMode) -> bool {
        post.input_mode == m && post.status@ == mode_text(m)
    }

    /// Neither the mode nor the status text moved.
    pub open spec fn mode_status_unchanged(pre: Hektor, post: Hektor) -> bool {
        post.input_mode == pre.input_mode && post.status == pre.status
    }

    /// The buffer list is exactly as before.
    pub open spec fn buffers_unchanged(pre: Hektor, post: Hektor) -> bool {
        post.buffers == pre.buffers
    }

    /// The command line and the command queue are exactly as before.
    pub open spec fn command_state_unchanged(pre: Hektor, post: Hektor) -> bool {
        post.command_buffer == pre.command_buffer && post.command_queue == pre.command_queue
    }

    /// Only the active buffer's cursor moved, to `c`.
    pub open spec fn active_moved(pre: Hektor, post: Hektor, c: Cursor) -> bool {
        post.buffers@ == pre.buffers@.update(
            pre.active_buffer_id as int,
            pre.active().with_cursor(c),
        )
    }

    /// Every buffer but the active one is exactly as before, and the active
    /// one kept its name.
    pub open spec fn only_active_changed(pre: Hektor, post: Hektor) -> bool {
        &&& post.buffers@.len() == pre.buffers@.len()
        &&& forall|i: int| #![auto]
            0 <= i < pre.buffers@.len() && i != pre.active_buffer_id as int ==> post.buffers@[i]
                == pre.buffers@[i]
        &&& post.active().name == pre.active().name
    }

    /// An empty line was opened below the cursor row of the active buffer and
    /// the cursor moved onto its start (down, then to column 0) — unless the
    /// buffer already holds as many lines as a row coordinate can address, in
    /// which case nothing happens to the buffers.
    pub open spec fn line_opened_below(pre: Hektor, post: Hektor, vp: Viewport) -> bool {
        if pre.active().line_count() < u16::MAX as int {
            &&& Self::only_active_changed(pre, post)
            &&& Buffer::line_inserted_below(pre.active(), post.active())
            &&& post.active().cursor == ({
                let mid = Buffer {
                    name: pre.active().name,
                    lines: post.active().lines,
                    cursor: pre.active().cursor,
                };
                let cd = mid.cursor_down_spec(vp);
                Cursor { col: 0u16, row: cd.row, desired_col: cd.desired_col }
            })
        } else {
            Self::buffers_unchanged(pre, post)
        }
    }

    /// The character left of the cursor was removed from the active buffer
    /// (a no-op at column 0) and the cursor moved one left, clamped against
    /// the shortened line.
    pub open spec fn char_erased(pre: Hektor, post: Hektor, vp: Viewport) -> bool {
        &&& Self::only_active_changed(pre, post)
        &&& ({
            let a = pre.active();
            let mid = Buffer { name: a.name, lines: post.active().lines, cursor: a.cursor };
            &&& Buffer::char_deleted(a, mid)
            &&& post.active().cursor == mid.cursor_left_spec(vp)
        })
    }

    /// `c` was inserted at the cursor of the active buffer and the cursor
    /// moved one right — unless the line already holds as many characters as
    /// a column coordinate can address, in which case nothing happens to the
    /// buffers.
    pub open spec fn char_typed(pre: Hektor, post: Hektor, c: char, vp: Viewport) -> bool {
        if pre.active().line(pre.active().cursor.row as int).len() < u16::MAX as int {
            &&& Self::only_active_changed(pre, post)
            &&& ({
                let a = pre.active();
                let mid = Buffer { name: a.name, lines: post.active().lines, cursor: a.cursor };
                &&& Buffer::char_inserted(a, mid, c)
                &&& post.active().cursor == mid.cursor_right_spec(vp)
            })
        } else {
            Self::buffers_unchanged(pre, post)
        }
    }

    /// The command line was emptied; its cursor and everything else about the
    /// command buffer stay as they were.
    pub open spec fn command_line_cleared(pre: Hektor, post: Hektor) -> bool {
        &&& post.command_buffer.lines@.len() == pre.command_buffer.lines@.len()
        &&& post.command_buffer.lines@[0]@ == Seq::<char>::empty()
        &&& forall|i: int| #![auto]
            1 <= i < pre.command_buffer.lines@.len() ==> post.command_buffer.lines@[i]
                == pre.command_buffer.lines@[i]
        &&& post.command_buffer.cursor == pre.command_buffer.cursor
        &&& post.command_buffer.name == pre.command_buffer.name
    }

    /// The command line's whitespace-separated tokens were appended to the
    /// command queue, in order, behind what was already pending.
    pub open spec fn tokens_queued(pre: Hektor, post: Hektor) -> bool {
        let toks = tokens_of(pre.command_line());
        &&& post.command_queue@.len() == pre.command_queue@.len() + toks.len()
        &&& forall|i: int| #![auto]
            0 <= i < pre.command_queue@.len() ==> post.command_queue@[i] == pre.command_queue@[i]
        &&& forall|i: int| #![auto]
            pre.command_queue@.len() <= i < post.command_queue@.len() ==> post.command_queue@[i]@
                == toks[i - pre.command_queue@.len()]
    }

    /// The last character of the command line was removed and the command
    /// cursor moved one left, clamped; with an empty line nothing happens.
    pub open spec fn command_char_erased(pre: Hektor, post: Hektor, vp: Viewport) -> bool {
        let cb = pre.command_buffer;
        if cb.lines@[0]@.len() > 0 {
            &&& post.command_buffer.lines@.len() == cb.lines@.len()
            &&& post.command_buffer.lines@[0]@ == cb.lines@[0]@.drop_last()
            &&& post.command_buffer.name == cb.name
            &&& post.command_buffer.cursor == ({
                let mid = Buffer { name: cb.name, lines: post.command_buffer.lines, cursor: cb.cursor };
                mid.cursor_left_spec(vp)
            })
        } else {
            post.command_buffer == cb
        }
    }

    /// `c` was appended to the command line and the command cursor moved one
    /// right — unless the line or the cursor column is already at the limit a
    /// `u16` can address, in which case nothing happens.
    pub open spec fn command_char_typed(pre: Hektor, post: Hektor, c: char, vp: Viewport) -> bool {
        let cb = pre.command_buffer;
        if cb.lines@[0]@.len() < u16::MAX as int && cb.cursor.col < u16::MAX {
            &&& post.command_buffer.lines@.len() == cb.lines@.len()
            &&& post.command_buffer.lines@[0]@ == cb.lines@[0]@.push(c)
            &&& post.command_buffer.name == cb.name
            &&& post.command_buffer.cursor == ({
                let mid = Buffer { name: cb.name, lines: post.command_buffer.lines, cursor: cb.cursor };
                mid.cursor_right_spec(vp)
            })
        } else {
            post.command_buffer == cb
        }
    }

    /// One step of the state machine in Normal mode, for a character key.
    pub open spec fn step_normal_char(pre: Hektor, vp: Viewport, c: char, post: Hektor) -> bool {
        if c == ':' {
            &&& post.input_mode == InputMode::Command
            &&& post.status == pre.status
            &&& Self::buffers_unchanged(pre, post)
        } else if c == 'i' {
            &&& Self::entered(post, InputMode::Insert)
            &&& Self::buffers_unchanged(pre, post)
        } else if c == 'I' {
            &&& Self::entered(post, InputMode::Insert)
            &&& Self::active_moved(pre, post, pre.active().cursor_to_start_spec())
        } else if c == 'a' {
            &&& Self::entered(post, InputMode::Insert)
            &&& if pre.active().cursor.col < u16::MAX {
                Self::active_moved(pre, post, pre.active().cursor_right_spec(vp))
            } else {
                Self::buffers_unchanged(pre, post)
            }
        } else if c == 'A' {
            &&& Self::entered(post, InputMode::Insert)
            &&& Self::active_moved(pre, post, pre.active().cursor_to_end_spec())
        } else if c == 'o' {
            &&& Self::entered(post, InputMode::Insert)
            &&& Self::line_opened_below(pre, post, vp)
        } else if c == 'k' {
            &&& Self::mode_status_unchanged(pre, post)
            &&& Self::active_moved(pre, post, pre.active().cursor_up_spec(vp))
        } else if c == 'j' {
            &&& Self::mode_status_unchanged(pre, post)
            &&& Self::active_moved(pre, post, pre.active().cursor_down_spec(vp))
        } else if c == 'h' {
            &&& Self::mode_status_unchanged(pre, post)
            &&& Self::active_moved(pre, post, pre.active().cursor_left_spec(vp))
        } else if c == 'l' {
            &&& Self::mode_status_unchanged(pre, post)
            &&& if pre.active().cursor.col < u16::MAX {
                Self::active_moved(pre, post, pre.active().cursor_right_spec(vp))
            } else {
                Self::buffers_unchanged(pre, post)
            }
        } else {
            post == pre
        }
    }

    /// One step of the state machine in Normal mode.
    pub open spec fn step_normal(pre: Hektor, vp: Viewport, ev: InputEvent, post: Hektor) -> bool {
        &&& Self::command_state_unchanged(pre, post)
        &&& match ev {
            InputEvent::Esc => {
                &&& post.input_mode == InputMode::Normal
                &&& post.status@ == mode_text(InputMode::Normal)
                &&& Self::buffers_unchanged(pre, post)
            },
            InputEvent::Char(c) => Self::step_normal_char(pre, vp, c, post),
            _ => post == pre,
        }
    }

    /// One step of the state machine in Insert mode.
    pub open spec fn step_insert(pre: Hektor, vp: Viewport, ev: InputEvent, post: Hektor) -> bool {
        &&& Self::command_state_unchanged(pre, post)
        &&& match ev {
            InputEvent::Esc => {
                &&& Self::entered(post, InputMode::Normal)
                &&& Self::buffers_unchanged(pre, post)
            },
            InputEvent::Enter => {
                &&& Self::mode_status_unchanged(pre, post)
                &&& Self::line_opened_below(pre, post, vp)
            },
            InputEvent::Backspace => {
                &&& Self::mode_status_unchanged(pre, post)
                &&& Self::char_erased(pre, post, vp)
            },
            InputEvent::Char(c) => {
                &&& Self::mode_status_unchanged(pre, post)
                &&& Self::char_typed(pre, post, c, vp)
            },
            _ => post == pre,
        }
    }

    /// One step of the state machine in Command mode.
    pub open spec fn step_command(pre: Hektor, vp: Viewport, ev: InputEvent, post: Hektor) -> bool {
        &&& Self::buffers_unchanged(pre, post)
        &&& match ev {
            InputEvent::Esc => {
                &&& Self::entered(post, InputMode::Normal)
                &&& post.command_queue == pre.command_queue
                &&& Self::command_line_cleared(pre, post)
            },
            InputEvent::Enter => {
                &&& post.input_mode == InputMode::Normal
                &&& post.status == pre.status
                &&& Self::command_line_cleared(pre, post)
                &&& Self::tokens_queued(pre, post)
            },
            InputEvent::Backspace => {
                &&& Self::mode_status_unchanged(pre, post)
                &&& post.command_queue == pre.command_queue
                &&& Self::command_char_erased(pre, post, vp)
            },
            InputEvent::Char(c) => {
                &&& Self::mode_status_unchanged(pre, post)
                &&& post.command_queue == pre.command_queue
                &&& Self::command_char_typed(pre, post, c, vp)
            },
            _ => post == pre,
        }
    }

    /// One step of the state machine: exactly what `handle_event` does to the
    /// state for each mode and event.
    pub open spec fn step(pre: Hektor, vp: Viewport, ev: InputEvent, post: Hektor) -> bool {
        &&& post.active_buffer_id == pre.active_buffer_id
        &&& post.should_quit == pre.should_quit
        &&& match pre.input_mode {
            InputMode::Normal => Self::step_normal(pre, vp, ev, post),
            InputMode::Insert => Self::step_insert(pre, vp, ev, post),
            InputMode::Command => Self::step_command(pre, vp, ev, post),
        }
    }

    /// A fresh editor over one buffer holding the given lines (a single empty
    /// line when none are given, so the buffer is never without a line),
    /// starting in Normal mode with an empty command line and queue.
    pub fn new(name: String, lines: Vec<Vec<char>>, vp: Viewport) -> (ed: Hektor)
        requires
            lines@.len() <= u16::MAX as int,
            forall|i: int|
                0 <= i < lines@.len() ==> (#[trigger] lines@[i])@.len() <= u16::MAX as int,
        ensures
            ed.wf(),
            ed.input_mode == InputMode::Normal,
            ed.active_buffer_id == 0,
            ed.buffers@.len() == 1,
            ed.buffers@[0].name == name,
            lines@.len() > 0 ==> ed.buffers@[0].lines == lines,
            lines@.len() == 0 ==> ed.buffers@[0].lines@.len() == 1 && ed.buffers@[0].lines@[0]@
                =~= Seq::<char>::empty(),
            ed.buffers@[0].cursor == (Cursor { col: 0u16, row: 0u16, desired_col: 0u16 }),
            ed.command_line() =~= Seq::<char>::empty(),
            ed.command_buffer.cursor == (Cursor { col: 2u16, row: vp.height, desired_col: 2u16 }),
            ed.command_queue@.len() == 0,
            ed.status@ == mode_text(InputMode::Normal),
            !ed.should_quit,
    {
        let mut ls = lines;
        if ls.len() == 0 {
            ls.push(Vec::new());
        }
        let text_buffer = Buffer {
            name,
            lines: ls,
            cursor: Cursor { col: 0, row: 0, desired_col: 0 },
        };
        let mut buffers: Vec<Buffer> = Vec::new();
        buffers.push(text_buffer);
        let mut cmd_lines: Vec<Vec<char>> = Vec::new();
        cmd_lines.push(Vec::new());
        Hektor {
            input_mode: InputMode::Normal,
            active_buffer_id: 0,
            buffers,
            command_buffer: Buffer {
                name: "_command_buffer_".to_owned(),
                lines: cmd_lines,
                cursor: Cursor { col: 2, row: vp.height, desired_col: 2 },
            },
            command_queue: Vec::new(),
            status: InputMode::Normal.text(),
            should_quit: false,
        }
    }

    /// Feed one key event to the state machine. The effect on the state is
    /// exactly `step`; the editor invariant is preserved.
    pub fn handle_event(&mut self, ev: InputEvent, vp: Viewport)
        requires
            old(self).wf(),
            vp.wf(),
        ensures
            final(self).wf(),
            Hektor::step(*old(self), vp, ev, *final(self)),
    {
        match self.input_mode {
            InputMode::Normal => {
                match ev {
                    InputEvent::Esc => {
                        self.status = InputMode::Normal.text();
                    },
                    InputEvent::Char(c) => {
                        if c == ':' {
                            self.input_mode = InputMode::Command;
                        } else if c == 'i' {
                            self.input_mode = InputMode::Insert;
                            self.status = InputMode::Insert.text();
                        } else if c == 'I' {
                            self.input_mode = InputMode::Insert;
                            self.status = InputMode::Insert.text();
                            let id = self.active_buffer_id;
                            let b = &mut self.buffers[id];
                            b.cursor_to_start();
                            proof {
                                crate::buffer::lemma_moves_stay_in_lines(old(self).active(), vp);
                                assert(self.buffers@[id as int] == old(self).active().with_cursor(
                                    old(self).active().cursor_to_start_spec(),
                                ));
                            }
                        } else if c == 'a' {
                            self.input_mode = InputMode::Insert;
                            self.status = InputMode::Insert.text();
                            let id = self.active_buffer_id;
                            if self.buffers[id].cursor.col < u16::MAX {
                                let b = &mut self.buffers[id];
                                b.cursor_right(vp);
                                proof {
                                    crate::buffer::lemma_moves_stay_in_lines(
                                        old(self).active(),
                                        vp,
                                    );
                                    assert(self.buffers@[id as int] == old(
                                        self,
                                    ).active().with_cursor(
                                        old(self).active().cursor_right_spec(vp),
                                    ));
                                }
                            }
                        } else if c == 'A' {
                            self.input_mode = InputMode::Insert;
                            self.status = InputMode::Insert.text();
                            let id = self.active_buffer_id;
                            let b = &mut self.buffers[id];
                            b.cursor_to_end();
                            proof {
                                crate::buffer::lemma_moves_stay_in_lines(old(self).active(), vp);
                                assert(self.buffers@[id as int] == old(self).active().with_cursor(
                                    old(self).active().cursor_to_end_spec(),
                                ));
                            }
                        } else if c == 'o' {
                            let id = self.active_buffer_id;
                            if self.buffers[id].lines.len() < u16::MAX as usize {
                                let b = &mut self.buffers[id];
                                let ghost a = *b;
                                b.insert_line();
                                proof {
                                    crate::buffer::lemma_line_inserted_wf(a, *b);
                                    crate::buffer::lemma_moves_stay_in_lines(*b, vp);
                                }
                                let ghost v1 = *b;
                                b.cursor_down(vp);
                                b.cursor_to_start();
                                proof {
                                    assert(v1 == (Buffer {
                                        name: a.name,
                                        lines: self.buffers@[id as int].lines,
                                        cursor: a.cursor,
                                    }));
                                }
                            }
                            self.input_mode = InputMode::Insert;
                            self.status = InputMode::Insert.text();
                        } else if c == 'k' {
                            let id = self.active_buffer_id;
                            let b = &mut self.buffers[id];
                            b.cursor_up(vp);
                            proof {
                                crate::buffer::lemma_moves_stay_in_lines(old(self).active(), vp);
                                assert(self.buffers@[id as int] == old(self).active().with_cursor(
                                    old(self).active().cursor_up_spec(vp),
                                ));
                            }
                        } else if c == 'j' {
                            let id = self.active_buffer_id;
                            let b = &mut self.buffers[id];
                            b.cursor_down(vp);
                            proof {
                                crate::buffer::lemma_moves_stay_in_lines(old(self).active(), vp);
                                assert(self.buffers@[id as int] == old(self).active().with_cursor(
                                    old(self).active().cursor_down_spec(vp),
                                ));
                            }
                        } else if c == 'h' {
                            let id = self.active_buffer_id;
                            let b = &mut self.buffers[id];
                            b.cursor_left(vp);
                            proof {
                                crate::buffer::lemma_moves_stay_in_lines(old(self).active(), vp);
                                assert(self.buffers@[id as int] == old(self).active().with_cursor(
                                    old(self).active().cursor_left_spec(vp),
                                ));
                            }
                        } else if c == 'l' {
                            let id = self.active_buffer_id;
                            if self.buffers[id].cursor.col < u16::MAX {
                                let b = &mut self.buffers[id];
                                b.cursor_right(vp);
                                proof {
                                    crate::buffer::lemma_moves_stay_in_lines(
                                        old(self).active(),
                                        vp,
                                    );
                                    assert(self.buffers@[id as int] == old(
                                        self,
                                    ).active().with_cursor(
                                        old(self).active().cursor_right_spec(vp),
                                    ));
                                }
                            }
                        }
                    },
                    _ => {},
                }
            },
            InputMode::Insert => {
                match ev {
                    InputEvent::Esc => {
                        self.input_mode = InputMode::Normal;
                        self.status = InputMode::Normal.text();
                    },
                    InputEvent::Enter => {
                        let id = self.active_buffer_id;
                        if self.buffers[id].lines.len() < u16::MAX as usize {
                            let b = &mut self.buffers[id];
                            let ghost a = *b;
                            b.insert_line();
                            proof {
                                crate::buffer::lemma_line_inserted_wf(a, *b);
                                crate::buffer::lemma_moves_stay_in_lines(*b, vp);
                            }
                            let ghost v1 = *b;
                            b.cursor_down(vp);
                            b.cursor_to_start();
                            proof {
                                assert(v1 == (Buffer {
                                    name: a.name,
                                    lines: self.buffers@[id as int].lines,
                                    cursor: a.cursor,
                                }));
                            }
                        }
                    },
                    InputEvent::Backspace => {
                        let id = self.active_buffer_id;
                        let b = &mut self.buffers[id];
                        let ghost a = *b;
                        b.delete_char();
                        proof {
                            crate::buffer::lemma_char_deleted_wf(a, *b);
                            crate::buffer::lemma_moves_stay_in_lines(*b, vp);
                        }
                        let ghost v1 = *b;
                        b.cursor_left(vp);
                        proof {
                            assert(v1 == (Buffer {
                                name: a.name,
                                lines: self.buffers@[id as int].lines,
                                cursor: a.cursor,
                            }));
                        }
                    },
                    InputEvent::Char(c) => {
                        let id = self.active_buffer_id;
                        let row = self.buffers[id].cursor.row as usize;
                        if self.buffers[id].lines[row].len() < u16::MAX as usize {
                            let b = &mut self.buffers[id];
                            let ghost a = *b;
                            b.insert_char(c);
                            proof {
                                crate::buffer::lemma_char_inserted_wf(a, *b, c);
                                crate::buffer::lemma_moves_stay_in_lines(*b, vp);
                            }
                            let ghost v1 = *b;
                            b.cursor_right(vp);
                            proof {
                                assert(v1 == (Buffer {
                                    name: a.name,
                                    lines: self.buffers@[id as int].lines,
                                    cursor: a.cursor,
                                }));
                            }
                        }
                    },
                    _ => {},
                }
            },
            InputMode::Command => {
                match ev {
                    InputEvent::Esc => {
                        self.input_mode = InputMode::Normal;
                        self.status = InputMode::Normal.text();
                        let line = &mut self.command_buffer.lines[0];
                        line.clear();
                    },
                    InputEvent::Enter => {
                        let mut toks = tokenize(&self.command_buffer.lines[0]);
                        self.command_queue.append(&mut toks);
                        let line = &mut self.command_buffer.lines[0];
                        line.clear();
                        self.input_mode = InputMode::Normal;
                    },
                    InputEvent::Backspace => {
                        if self.command_buffer.lines[0].len() > 0 {
                            let ghost cb = self.command_buffer;
                            let line = &mut self.command_buffer.lines[0];
                            line.pop();
                            proof {
                                assert(self.command_buffer.lines@[0]@ =~= cb.lines@[0]@.drop_last());
                            }
                            let ghost v1 = self.command_buffer;
                            self.command_buffer.cursor_left(vp);
                            proof {
                                assert(v1 == (Buffer {
                                    name: cb.name,
                                    lines: self.command_buffer.lines,
                                    cursor: cb.cursor,
                                }));
                            }
                        }
                    },
                    InputEvent::Char(c) => {
                        if self.command_buffer.lines[0].len() < u16::MAX as usize
                            && self.command_buffer.cursor.col < u16::MAX {
                            let ghost cb = self.command_buffer;
                            let line = &mut self.command_buffer.lines[0];
                            line.push(c);
                            let ghost v1 = self.command_buffer;
                            self.command_buffer.cursor_right(vp);
                            proof {
                                assert(v1 == (Buffer {
                                    name: cb.name,
                                    lines: self.command_buffer.lines,
                                    cursor: cb.cursor,
                                }));
                            }
                        }
                    },
                    _ => {},
                }
            },
        }
    }

    /// Drain the command queue in FIFO order, removing each token from the
    /// front as it is processed: `q` asks to quit, `w` asks for the active
    /// buffer to be persisted, anything else puts an error on the status
    /// line without stopping the rest. Writing is the one effect the editor
    /// cannot perform itself; the number of requested writes of the active
    /// buffer is returned for the caller to carry out, in order.
    pub fn handle_command_queue(&mut self) -> (writes: usize)
        ensures
            final(self).command_queue@.len() == 0,
            final(self).should_quit == (old(self).should_quit || quit_in(
                old(self).command_queue@,
            )),
            writes as int == write_count(old(self).command_queue@),
            unknown_in(old(self).command_queue@) ==> final(self).status@ == unknown_command_text(),
            !unknown_in(old(self).command_queue@) ==> final(self).status == old(self).status,
            final(self).input_mode == old(self).input_mode,
            final(self).active_buffer_id == old(self).active_buffer_id,
            final(self).buffers == old(self).buffers,
            final(self).command_buffer == old(self).command_buffer,
    {
        let ghost q0 = old(self).command_queue@;
        let ghost mut k: int = 0;
        let mut writes: usize = 0;
        let total = self.command_queue.len();
        proof {
            assert(q0.len() == total);
            assert(q0.skip(0) =~= q0);
            assert(q0.take(0) =~= Seq::<Vec<char>>::empty());
        }
        while self.command_queue.len() > 0
            invariant
                0 <= k <= q0.len(),
                q0.len() <= usize::MAX,
                self.command_queue@ == q0.skip(k),
                writes as int == write_count(q0.take(k)),
                writes <= k,
                self.should_quit == (old(self).should_quit || quit_in(q0.take(k))),
                unknown_in(q0.take(k)) ==> self.status@ == unknown_command_text(),
                !unknown_in(q0.take(k)) ==> self.status == old(self).status,
                self.input_mode == old(self).input_mode,
                self.active_buffer_id == old(self).active_buffer_id,
                self.buffers == old(self).buffers,
                self.command_buffer == old(self).command_buffer,
            decreases self.command_queue@.len(),
        {
            let token = self.command_queue.remove(0);
            proof {
                assert(q0.skip(k)[0] == q0[k]);
                assert(q0.skip(k).remove(0) =~= q0.skip(k + 1));
                lemma_queue_take_step(q0, k);
            }
            let is_quit = token.len() == 1 && token[0] == 'q';
            let is_write = token.len() == 1 && token[0] == 'w';
            if is_quit {
                self.should_quit = true;
            } else if is_write {
                writes = writes + 1;
            } else {
                self.status = unknown_command_status();
            }
            proof {
                k = k + 1;
            }
        }
        proof {
            assert(q0.take(q0.len() as int) =~= q0);
        }
        writes
    }
}

/// Extending a drained prefix of the queue by one token extends its effect
/// by exactly that token.
proof fn lemma_queue_take_step(q: Seq<Vec<char>>, k: int)
    requires
        0 <= k < q.len(),
    ensures
        quit_in(q.take(k + 1)) == (quit_in(q.take(k)) || is_cmd(q[k]@, 'q')),
        unknown_in(q.take(k + 1)) == (unknown_in(q.take(k)) || (!is_cmd(q[k]@, 'q') && !is_cmd(
            q[k]@,
            'w',
        ))),
        write_count(q.take(k + 1)) == write_count(q.take(k)) + if is_cmd(q[k]@, 'w') {
            1int
        } else {
            0int
        },
{
    assert(q.take(k + 1).drop_last() =~= q.take(k));
    assert(q.take(k + 1).last() == q[k]);
}

/// Split a line on whitespace into its maximal blank-free runs.
fn tokenize(line: &Vec<char>) -> (tokens: Vec<Vec<char>>)
    ensures
        tokens@.len() == tokens_of(line@).len(),
        forall|i: int| #![auto] 0 <= i < tokens@.len() ==> tokens@[i]@ == tokens_of(line@)[i],
{
    let ghost goal = tokens_of(line@);
    let mut tokens: Vec<Vec<char>> = Vec::new();
    let mut cur: Vec<char> = Vec::new();
    let ghost mut acc: Seq<Seq<char>> = Seq::empty();
    let mut i: usize = 0;
    proof {
        assert(line@.skip(0) =~= line@);
    }
    while i < line.len()
        invariant
            i <= line@.len(),
            goal == tokens_from(line@.skip(i as int), cur@, acc),
            acc.len() == tokens@.len(),
            forall|j: int| #![auto] 0 <= j < tokens@.len() ==> tokens@[j]@ == acc[j],
        decreases line@.len() - i,
    {
        let ghost s0 = line@.skip(i as int);
        let ghost cur0 = cur@;
        let ghost acc0 = acc;
        let c = line[i];
        proof {
            assert(s0[0] == line@[i as int]);
            assert(s0.drop_first() =~= line@.skip(i + 1));
        }
        if c == ' ' || c == '\t' || c == '\n' || c == '\u{c}' || c == '\r' {
            if cur.len() > 0 {
                proof {
                    assert(tokens_from(s0, cur0, acc0) == tokens_from(
                        s0.drop_first(),
                        Seq::<char>::empty(),
                        acc0.push(cur0),
                    ));
                    acc = acc.push(cur@);
                }
                tokens.push(cur);
                cur = Vec::new();
            } else {
                proof {
                    assert(tokens_from(s0, cur0, acc0) == tokens_from(
                        s0.drop_first(),
                        Seq::<char>::empty(),
                        acc0,
                    ));
                    assert(cur0 =~= Seq::<char>::empty());
                }
            }
        } else {
            proof {
                assert(tokens_from(s0, cur0, acc0) == tokens_from(
                    s0.drop_first(),
                    cur0.push(s0[0]),
                    acc0,
                ));
            }
            cur.push(c);
        }
        i = i + 1;
    }
    proof {
        assert(line@.skip(line@.len() as int) =~= Seq::<char>::empty());
    }
    if cur.len() > 0 {
        proof {
            acc = acc.push(cur@);
        }
        tokens.push(cur);
    }
    tokens
}

} // verus!

