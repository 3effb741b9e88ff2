//! The interactive search session.
//!
//! `App` owns the query editor (a cursor-addressable sequence of Unicode
//! scalar values), the suggestion list with its wraparound highlight, and
//! the state machine that turns one input event into the next session
//! state.  The surrounding binary reads key events, draws the screen and
//! writes the clipboard; every decision is made here.

use vstd::prelude::*;

verus! {

use crate::cmd::search::{is_search_result, search, TagData};
use crate::repo::tag_data_repository::TagDataRepository;
use crate::text::string_from_chars;

/// One key input, as the session understands it.
#[derive(Debug, Clone, Copy, PartialEq, Eq, Structural)]
pub enum InputEvent {
    Char(char),
    Backspace,
    Left,
    Right,
    Tab,
    Down,
    Up,
    Enter,
    Esc,
}

/// The session after one event: still editing, committed to a command to
/// hand to the clipboard, or cancelled.
#[derive(Debug, PartialEq, Eq)]
pub enum SessionState {
    Editing,
    Committed(String),
    Cancelled,
}

/// One editor operation on the query string.
#[derive(Debug, Clone, Copy, PartialEq, Eq, Structural)]
pub enum EditOp {
    Insert(char),
    DeleteBeforeCursor,
    MoveLeft(usize),
    MoveRight(usize),
}

/// The cursor addresses a position of the text, including one past the end.
pub open spec fn cursor_ok(text: Seq<char>, cursor: int) -> bool {
    0 <= cursor <= text.len()
}

/// The editor after one operation: the new text and cursor.
pub open spec fn apply_edit(text: Seq<char>, cursor: int, op: EditOp) -> (Seq<char>, int) {
    match op {
        EditOp::Insert(c) => (text.insert(cursor, c), cursor + 1),
        EditOp::DeleteBeforeCursor => if cursor == 0 {
            (text, 0)
        } else {
            (text.remove(cursor - 1), cursor - 1)
        },
        EditOp::MoveLeft(n) => (text, if cursor - n < 0 {
            0
        } else {
            cursor - n
        }),
        EditOp::MoveRight(n) => (text, if cursor + n > text.len() {
            text.len() as int
        } else {
            cursor + n
        }),
    }
}

/// The editor after a whole sequence of operations.
pub open spec fn apply_edits(text: Seq<char>, cursor: int, ops: Seq<EditOp>) -> (Seq<char>, int)
    decreases ops.len(),
{
    if ops.len() == 0 {
        (text, cursor)
    } else {
        let s = apply_edit(text, cursor, ops[0]);
        apply_edits(s.0, s.1, ops.drop_first())
    }
}

/// One operation keeps the cursor inside the text.
proof fn lemma_edit_keeps_cursor(text: Seq<char>, cursor: int, op: EditOp)
    requires
        cursor_ok(text, cursor),
    ensures
        cursor_ok(apply_edit(text, cursor, op).0, apply_edit(text, cursor, op).1),
{
}

/// Law: however the editor is driven, the cursor stays inside the text —
/// after every prefix of any sequence of insert, delete and move
/// operations, `0 <= cursor <= len` still holds.
pub proof fn lemma_edit_ops_keep_cursor(text: Seq<char>, cursor: int, ops: Seq<EditOp>)
    requires
        cursor_ok(text, cursor),
    ensures
        forall|n: int|
            0 <= n <= ops.len() ==> cursor_ok(
                apply_edits(text, cursor, #[trigger] ops.take(n)).0,
                apply_edits(text, cursor, ops.take(n)).1,
            ),
    decreases ops.len(),
{
    if ops.len() == 0 {
        assert forall|n: int|
            0 <= n <= ops.len() implies cursor_ok(
            apply_edits(text, cursor, #[trigger] ops.take(n)).0,
            apply_edits(text, cursor, ops.take(n)).1,
        ) by {
            assert(ops.take(n) =~= Seq::<EditOp>::empty());
        }
    } else {
        let s = apply_edit(text, cursor, ops[0]);
        lemma_edit_keeps_cursor(text, cursor, ops[0]);
        lemma_edit_ops_keep_cursor(s.0, s.1, ops.drop_first());
        assert forall|n: int|
            0 <= n <= ops.len() implies cursor_ok(
            apply_edits(text, cursor, #[trigger] ops.take(n)).0,
            apply_edits(text, cursor, ops.take(n)).1,
        ) by {
            if n == 0 {
                assert(ops.take(0) =~= Seq::<EditOp>::empty());
            } else {
                let tk = ops.take(n);
                assert(tk[0] == ops[0]);
                assert(tk.drop_first() =~= ops.drop_first().take(n - 1));
                assert(cursor_ok(
                    apply_edits(s.0, s.1, ops.drop_first().take(n - 1)).0,
                    apply_edits(s.0, s.1, ops.drop_first().take(n - 1)).1,
                ));
            }
        }
    }
}

/// The highlight after one navigation step over a list of `len` entries:
/// forward and backward both wrap, and an empty list pins it to the start.
pub open spec fn next_selection(sel: int, len: int, forward: bool) -> int {
    if len == 0 {
        0
    } else if forward {
        if sel >= len - 1 {
            0
        } else {
            sel + 1
        }
    } else {
        if sel == 0 {
            len - 1
        } else {
            sel - 1
        }
    }
}

/// Law: suggestion navigation wraps.  On a non-empty list, forward from
/// the last entry reaches the first and backward from the first reaches
/// the last; on an empty list the highlight stays at the start.
pub proof fn lemma_navigation_wraps(len: int)
    requires
        len >= 0,
    ensures
        len > 0 ==> next_selection(len - 1, len, true) == 0,
        len > 0 ==> next_selection(0, len, false) == len - 1,
        next_selection(0, 0, true) == 0,
        next_selection(0, 0, false) == 0,
{
}

/// The state of one interactive search session.
pub struct App {
    input: Vec<char>,
    cursor_input_position: usize,
    cursor_command_position: usize,
    suggestions: Vec<TagData>,
}

impl App {
    /// The query string.
    pub closed spec fn input_spec(&self) -> Seq<char> {
        self.input@
    }

    /// The cursor, as a character index into the query string.
    pub closed spec fn cursor_spec(&self) -> int {
        self.cursor_input_position as int
    }

    /// The index of the highlighted suggestion.
    pub closed spec fn selection_spec(&self) -> int {
        self.cursor_command_position as int
    }

    /// The current suggestion list.
    pub closed spec fn suggestions_spec(&self) -> Seq<TagData> {
        self.suggestions@
    }

    /// The session invariants: the cursor addresses the query string, and
    /// the highlight addresses the suggestion list (or its start, when the
    /// list is empty).
    pub open spec fn wf(&self) -> bool {
        &&& cursor_ok(self.input_spec(), self.cursor_spec())
        &&& if self.suggestions_spec().len() == 0 {
            self.selection_spec() == 0
        } else {
            0 <= self.selection_spec() < self.suggestions_spec().len()
        }
    }

    /// Clamps a prospective cursor position into the valid range.
    pub fn clamp_cursor(&self, new_cursor_pos: usize) -> (r: usize)
        ensures
            r as int == if new_cursor_pos <= self.input_spec().len() {
                new_cursor_pos as int
            } else {
                self.input_spec().len() as int
            },
    {
        if new_cursor_pos <= self.input.len() {
            new_cursor_pos
        } else {
            self.input.len()
        }
    }

    /// Moves the input cursor left by `size`, stopping at the start.  The
    /// new position is re-clamped, so the call also repairs a cursor that
    /// an edit just pushed past the end.
    pub fn move_cursor_left(&mut self, size: usize)
        ensures
            final(self).input_spec() == old(self).input_spec(),
            final(self).suggestions_spec() == old(self).suggestions_spec(),
            final(self).selection_spec() == old(self).selection_spec(),
            final(self).cursor_spec() == ({
                let target = if old(self).cursor_spec() >= size {
                    old(self).cursor_spec() - size
                } else {
                    0
                };
                if target <= old(self).input_spec().len() {
                    target
                } else {
                    old(self).input_spec().len() as int
                }
            }),
            old(self).wf() ==> final(self).wf() && (
                final(self).input_spec(),
                final(self).cursor_spec(),
            ) == apply_edit(
                old(self).input_spec(),
                old(self).cursor_spec(),
                EditOp::MoveLeft(size),
            ),
    {
        let cursor_moved_left = if self.cursor_input_position >= size {
            self.cursor_input_position - size
        } else {
            0
        };
        self.cursor_input_position = self.clamp_cursor(cursor_moved_left);
    }

    /// Moves the input cursor right by `size`, stopping at the end.
    pub fn move_cursor_right(&mut self, size: usize)
        requires
            old(self).wf(),
        ensures
            final(self).wf(),
            (final(self).input_spec(), final(self).cursor_spec()) == apply_edit(
                old(self).input_spec(),
                old(self).cursor_spec(),
                EditOp::MoveRight(size),
            ),
            final(self).suggestions_spec() == old(self).suggestions_spec(),
            final(self).selection_spec() == old(self).selection_spec(),
    {
        proof {
            assert(self.input@.len() == self.input.len());
        }
        let cursor_moved_right = if self.cursor_input_position <= usize::MAX - size {
            self.cursor_input_position + size
        } else {
            usize::MAX
        };
        self.cursor_input_position = self.clamp_cursor(cursor_moved_right);
    }

    /// Inserts `new_char` before the cursor and advances the cursor past it.
    pub fn enter_char(&mut self, new_char: char)
        requires
            old(self).wf(),
            old(self).input_spec().len() < usize::MAX,
        ensures
            final(self).wf(),
            (final(self).input_spec(), final(self).cursor_spec()) == apply_edit(
                old(self).input_spec(),
                old(self).cursor_spec(),
                EditOp::Insert(new_char),
            ),
            final(self).suggestions_spec() == old(self).suggestions_spec(),
            final(self).selection_spec() == old(self).selection_spec(),
    {
        self.input.insert(self.cursor_input_position, new_char);
        self.move_cursor_right(1);
    }

    /// Removes the character before the cursor and moves the cursor left.
    /// With the cursor at the start of the input, nothing changes.
    pub fn delete_char(&mut self)
        requires
            old(self).wf(),
        ensures
            final(self).wf(),
            (final(self).input_spec(), final(self).cursor_spec()) == apply_edit(
                old(self).input_spec(),
                old(self).cursor_spec(),
                EditOp::DeleteBeforeCursor,
            ),
            old(self).cursor_spec() == 0 ==> *final(self) == *old(self),
            final(self).suggestions_spec() == old(self).suggestions_spec(),
            final(self).selection_spec() == old(self).selection_spec(),
    {
        let is_not_cursor_leftmost = self.cursor_input_position != 0;
        if is_not_cursor_leftmost {
            let current_index = self.cursor_input_position;
            self.input.remove(current_index - 1);
            self.move_cursor_left(1);
        }
    }

    /// The index of the highlighted suggestion.
    pub fn get_current_command_input(&self) -> (r: usize)
        ensures
            r as int == self.selection_spec(),
    {
        self.cursor_command_position
    }

    /// Moves the highlight down (`add > 0`) or up, wrapping at both ends;
    /// with no suggestions the highlight stays at the start.
    pub fn add_current_command_input(&mut self, add: i32)
        requires
            old(self).wf(),
        ensures
            final(self).wf(),
            final(self).selection_spec() == next_selection(
                old(self).selection_spec(),
                old(self).suggestions_spec().len() as int,
                add > 0,
            ),
            final(self).input_spec() == old(self).input_spec(),
            final(self).cursor_spec() == old(self).cursor_spec(),
            final(self).suggestions_spec() == old(self).suggestions_spec(),
    {
        if self.suggestions.is_empty() {
            self.cursor_command_position = 0;
            return;
        }
        if add > 0 {
            if self.suggestions.len() - 1 <= self.cursor_command_position {
                self.cursor_command_position = 0;
                return;
            }
            self.cursor_command_position = self.cursor_command_position + 1;
        } else {
            if self.cursor_command_position == 0 {
                self.cursor_command_position = self.suggestions.len() - 1;
                return;
            }
            self.cursor_command_position = self.cursor_command_position - 1;
        }
    }

    /// The query string, for the input region of the display.
    pub fn input_text(&self) -> (r: String)
        ensures
            r@ == self.input_spec(),
    {
        string_from_chars(&self.input)
    }

    /// The cursor, as a character index into the query string.
    pub fn cursor_position(&self) -> (r: usize)
        ensures
            r as int == self.cursor_spec(),
    {
        self.cursor_input_position
    }

    /// The current suggestion list, for the suggestion region of the
    /// display.
    pub fn suggestion_list(&self) -> (r: &Vec<TagData>)
        ensures
            r@ == self.suggestions_spec(),
    {
        &self.suggestions
    }

    /// The highlighted suggestion, or `None` when there are none.
    pub fn current(&self) -> (r: Option<&TagData>)
        requires
            self.wf(),
        ensures
            match r {
                Some(td) => self.suggestions_spec().len() > 0 && *td == self.suggestions_spec()[self.selection_spec()],
                None => self.suggestions_spec().len() == 0,
            },
    {
        if self.suggestions.len() == 0 {
            None
        } else {
            Some(&self.suggestions[self.cursor_command_position])
        }
    }

    /// Recomputes the suggestions for the current query and resets the
    /// highlight to the first entry.
    pub fn auto_complete<T: TagDataRepository>(&mut self, repo: &T)
        requires
            old(self).wf(),
            repo.wf(),
        ensures
            final(self).wf(),
            final(self).input_spec() == old(self).input_spec(),
            final(self).cursor_spec() == old(self).cursor_spec(),
            final(self).selection_spec() == 0,
            is_search_result(
                repo.view(),
                old(self).input_spec(),
                final(self).suggestions_spec(),
            ),
    {
        self.cursor_command_position = 0;
        let query = string_from_chars(&self.input);
        self.suggestions = search(repo, query);
    }

    /// Drives the session by one input event, while it is editing.
    ///
    /// Printable characters, backspace and tab edit the query and rebuild
    /// the suggestions; the horizontal arrows move the input cursor; the
    /// vertical arrows move the highlight; enter commits the highlighted
    /// command, if there is one, and is otherwise ignored; escape cancels.
    pub fn handle_event<T: TagDataRepository>(&mut self, repo: &T, ev: InputEvent) -> (r:
        SessionState)
        requires
            old(self).wf(),
            repo.wf(),
            old(self).input_spec().len() < usize::MAX,
        ensures
            final(self).wf(),
            match ev {
                InputEvent::Char(c) => {
                    &&& r == SessionState::Editing
                    &&& (final(self).input_spec(), final(self).cursor_spec()) == apply_edit(
                        old(self).input_spec(),
                        old(self).cursor_spec(),
                        EditOp::Insert(c),
                    )
                    &&& final(self).selection_spec() == 0
                    &&& is_search_result(
                        repo.view(),
                        final(self).input_spec(),
                        final(self).suggestions_spec(),
                    )
                },
                InputEvent::Backspace => {
                    &&& r == SessionState::Editing
                    &&& (final(self).input_spec(), final(self).cursor_spec()) == apply_edit(
                        old(self).input_spec(),
                        old(self).cursor_spec(),
                        EditOp::DeleteBeforeCursor,
                    )
                    &&& final(self).selection_spec() == 0
                    &&& is_search_result(
                        repo.view(),
                        final(self).input_spec(),
                        final(self).suggestions_spec(),
                    )
                },
                InputEvent::Left => {
                    &&& r == SessionState::Editing
                    &&& (final(self).input_spec(), final(self).cursor_spec()) == apply_edit(
                        old(self).input_spec(),
                        old(self).cursor_spec(),
                        EditOp::MoveLeft(1),
                    )
                    &&& final(self).suggestions_spec() == old(self).suggestions_spec()
                    &&& final(self).selection_spec() == old(self).selection_spec()
                },
                InputEvent::Right => {
                    &&& r == SessionState::Editing
                    &&& (final(self).input_spec(), final(self).cursor_spec()) == apply_edit(
                        old(self).input_spec(),
                        old(self).cursor_spec(),
                        EditOp::MoveRight(1),
                    )
                    &&& final(self).suggestions_spec() == old(self).suggestions_spec()
                    &&& final(self).selection_spec() == old(self).selection_spec()
                },
                InputEvent::Tab => {
                    &&& r == SessionState::Editing
                    &&& final(self).input_spec() == old(self).input_spec()
                    &&& final(self).cursor_spec() == old(self).cursor_spec()
                    &&& final(self).selection_spec() == 0
                    &&& is_search_result(
                        repo.view(),
                        final(self).input_spec(),
                        final(self).suggestions_spec(),
                    )
                },
                InputEvent::Down => {
                    &&& r == SessionState::Editing
                    &&& final(self).selection_spec() == next_selection(
                        old(self).selection_spec(),
                        old(self).suggestions_spec().len() as int,
                        true,
                    )
                    &&& final(self).input_spec() == old(self).input_spec()
                    &&& final(self).cursor_spec() == old(self).cursor_spec()
                    &&& final(self).suggestions_spec() == old(self).suggestions_spec()
                },
                InputEvent::Up => {
                    &&& r == SessionState::Editing
                    &&& final(self).selection_spec() == next_selection(
                        old(self).selection_spec(),
                        old(self).suggestions_spec().len() as int,
                        false,
                    )
                    &&& final(self).input_spec() == old(self).input_spec()
                    &&& final(self).cursor_spec() == old(self).cursor_spec()
                    &&& final(self).suggestions_spec() == old(self).suggestions_spec()
                },
                InputEvent::Enter => {
                    &&& *final(self) == *old(self)
                    &&& if old(self).suggestions_spec().len() == 0 {
                        r == SessionState::Editing
                    } else {
                        r matches SessionState::Committed(cmd) && cmd@ == old(
                            self,
                        ).suggestions_spec()[old(self).selection_spec()].command@
                    }
                },
                InputEvent::Esc => {
                    &&& r == SessionState::Cancelled
                    &&& *final(self) == *old(self)
                },
            },
    {
        match ev {
            InputEvent::Char(c) => {
                self.enter_char(c);
                self.auto_complete(repo);
                SessionState::Editing
            },
            InputEvent::Backspace => {
                self.delete_char();
                self.auto_complete(repo);
                SessionState::Editing
            },
            InputEvent::Left => {
                self.move_cursor_left(1);
                SessionState::Editing
            },
            InputEvent::Right => {
                self.move_cursor_right(1);
                SessionState::Editing
            },
            InputEvent::Tab => {
                self.auto_complete(repo);
                SessionState::Editing
            },
            InputEvent::Down => {
                self.add_current_command_input(1);
                SessionState::Editing
            },
            InputEvent::Up => {
                self.add_current_command_input(-1);
                SessionState::Editing
            },
            InputEvent::Enter => {
                match self.current() {
                    Some(td) => {
                        let command = td.command.clone();
                        SessionState::Committed(command)
                    },
                    None => SessionState::Editing,
                }
            },
            InputEvent::Esc => SessionState::Cancelled,
        }
    }
}

impl Default for App {
    /// A fresh session: empty query, cursor and highlight at the start,
    /// no suggestions yet.
    fn default() -> (r: Self)
        ensures
            r.wf(),
            r.input_spec() == Seq::<char>::empty(),
            r.cursor_spec() == 0,
            r.selection_spec() == 0,
            r.suggestions_spec() == Seq::<TagData>::empty(),
    {
        App {
            input: Vec::new(),
            cursor_input_position: 0,
            cursor_command_position: 0,
            suggestions: Vec::new(),
        }
    }
}

} // verus!
