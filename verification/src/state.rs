//! The input editor: a state machine over keystrokes that keeps an editable
//! line of text, a cursor measured in character units, an input mode, and
//! the history of submitted lines.

use vstd::prelude::*;
use crate::wire::string_of;

verus! {

/// Whether the editor treats keys as navigation commands or as text input.
#[derive(Clone, Copy, Debug, PartialEq, Eq, Structural)]
pub enum InputMode {
    Normal,
    Editing,
}

/// A key as the editor understands it: a printable character, or one of
/// the named keys it reacts to. Anything else is `Other`.
#[derive(Clone, Copy, Debug, PartialEq, Eq, Structural)]
pub enum Key {
    Char(char),
    Enter,
    Backspace,
    Left,
    Right,
    Esc,
    Other,
}

/// Whether a key event reports a press, a repeat, or a release.
#[derive(Clone, Copy, Debug, PartialEq, Eq, Structural)]
pub enum KeyKind {
    Press,
    Repeat,
    Release,
}

/// One keystroke: which key, how it was reported, and whether the control
/// modifier was held.
#[derive(Clone, Copy, Debug, PartialEq, Eq, Structural)]
pub struct KeyInput {
    pub code: Key,
    pub kind: KeyKind,
    pub ctrl: bool,
}

/// The editor state. `input` is the line under edit as character units,
/// `cursor_position` counts characters from the left, `messages` is the
/// append-only history of submitted lines, and `timer` counts ticks.
pub struct App {
    pub input: Vec<char>,
    pub cursor_position: usize,
    pub input_mode: InputMode,
    pub messages: Vec<String>,
    pub timer: usize,
}

/// The cursor one step to the left, stopping at the left edge.
pub open spec fn left_pos(cur: nat) -> nat {
    if cur > 0 {
        (cur - 1) as nat
    } else {
        0
    }
}

/// `p` pulled back onto a line of length `n`.
pub open spec fn clamped(p: nat, n: nat) -> nat {
    if p <= n {
        p
    } else {
        n
    }
}

/// The cursor one step to the right, stopping at the end of a line of
/// length `n`.
pub open spec fn right_pos(cur: nat, n: nat) -> nat {
    if cur + 1 <= n {
        (cur + 1) as nat
    } else {
        n
    }
}

/// The line under edit and the cursor are the same in both states.
pub open spec fn buffer_unchanged(pre: App, post: App) -> bool {
    &&& post.input@ == pre.input@
    &&& post.cursor_position == pre.cursor_position
}

/// The submission history is the same in both states.
pub open spec fn history_unchanged(pre: App, post: App) -> bool {
    post.messages@ == pre.messages@
}

/// A submission happened between the two states: the line under edit was
/// appended to the history, then cleared, and the cursor was reset.
pub open spec fn submitted(pre: App, post: App) -> bool {
    &&& post.input@ == Seq::<char>::empty()
    &&& post.cursor_position == 0
    &&& post.messages@.len() == pre.messages@.len() + 1
    &&& post.messages@[pre.messages@.len() as int]@ == pre.input@
    &&& forall|i: int| 0 <= i < pre.messages@.len() ==> post.messages@[i] == pre.messages@[i]
}

/// The transition relation of the editor: from state `pre`, keystroke `key`
/// leads to state `post` and terminate signal `quit`, following the mode
/// table. In `Normal` mode, 'e' enters editing, 'q' and control-'c' signal
/// termination, and nothing touches the buffer; in `Editing` mode, only
/// pressed keys act, and they edit the line, move the cursor, submit, or
/// return to `Normal`.
pub open spec fn step_ok(pre: App, key: KeyInput, post: App, quit: bool) -> bool {
    match pre.input_mode {
        InputMode::Normal => {
            if key.code == Key::Char('e') {
                &&& buffer_unchanged(pre, post)
                &&& history_unchanged(pre, post)
                &&& post.input_mode == InputMode::Editing
                &&& post.timer == pre.timer
                &&& !quit
            } else if key.code == Key::Char('q') {
                post == pre && quit
            } else if key.code == Key::Char('c') && key.ctrl {
                post == pre && quit
            } else {
                post == pre && !quit
            }
        },
        InputMode::Editing => {
            if key.kind == KeyKind::Press {
                match key.code {
                    Key::Enter => {
                        &&& submitted(pre, post)
                        &&& post.input_mode == pre.input_mode
                        &&& post.timer == pre.timer
                        &&& !quit
                    },
                    Key::Char(c) => {
                        &&& post.input@ == pre.input@.insert(pre.cursor_position as int, c)
                        &&& post.cursor_position == pre.cursor_position + 1
                        &&& history_unchanged(pre, post)
                        &&& post.input_mode == pre.input_mode
                        &&& post.timer == pre.timer
                        &&& !quit
                    },
                    Key::Backspace => {
                        &&& if pre.cursor_position == 0 {
                            post.input@ == pre.input@ && post.cursor_position == 0
                        } else {
                            &&& post.input@ == pre.input@.remove(pre.cursor_position - 1)
                            &&& post.cursor_position == pre.cursor_position - 1
                        }
                        &&& history_unchanged(pre, post)
                        &&& post.input_mode == pre.input_mode
                        &&& post.timer == pre.timer
                        &&& !quit
                    },
                    Key::Left => {
                        &&& post.input@ == pre.input@
                        &&& post.cursor_position == left_pos(pre.cursor_position as nat)
                        &&& history_unchanged(pre, post)
                        &&& post.input_mode == pre.input_mode
                        &&& post.timer == pre.timer
                        &&& !quit
                    },
                    Key::Right => {
                        &&& post.input@ == pre.input@
                        &&& post.cursor_position == right_pos(
                            pre.cursor_position as nat,
                            pre.input@.len(),
                        )
                        &&& history_unchanged(pre, post)
                        &&& post.input_mode == pre.input_mode
                        &&& post.timer == pre.timer
                        &&& !quit
                    },
                    Key::Esc => {
                        &&& buffer_unchanged(pre, post)
                        &&& history_unchanged(pre, post)
                        &&& post.input_mode == InputMode::Normal
                        &&& post.timer == pre.timer
                        &&& !quit
                    },
                    Key::Other => post == pre && !quit,
                }
            } else {
                post == pre && !quit
            }
        },
    }
}

impl App {
    /// The cursor never leaves the line: it points at a character unit of
    /// `input` or just past the end.
    pub open spec fn wf(&self) -> bool {
        self.cursor_position <= self.input@.len()
    }

    /// A fresh editor: empty line, cursor at the left edge, `Normal` mode,
    /// no history, timer at zero.
    pub fn new() -> (app: App)
        ensures
            app.input@ == Seq::<char>::empty(),
            app.cursor_position == 0,
            app.input_mode == InputMode::Normal,
            app.messages@ == Seq::<String>::empty(),
            app.timer == 0,
            app.wf(),
    {
        App {
            input: Vec::new(),
            cursor_position: 0,
            input_mode: InputMode::Normal,
            messages: Vec::new(),
            timer: 0,
        }
    }

    /// Counts one tick of the host's clock.
    pub fn increment_timer(&mut self)
        requires
            old(self).timer < usize::MAX,
        ensures
            final(self).timer == old(self).timer + 1,
            final(self).input@ == old(self).input@,
            final(self).cursor_position == old(self).cursor_position,
            final(self).input_mode == old(self).input_mode,
            final(self).messages@ == old(self).messages@,
    {
        self.timer = self.timer + 1;
    }

    /// The given position pulled back onto the line: at most its length.
    pub fn clamp_cursor(&self, new_cursor_pos: usize) -> (r: usize)
        ensures
            r == if new_cursor_pos <= self.input@.len() {
                new_cursor_pos as int
            } else {
                self.input@.len() as int
            },
    {
        if new_cursor_pos < self.input.len() {
            new_cursor_pos
        } else {
            self.input.len()
        }
    }

    /// Moves the cursor one character left, stopping at the left edge.
    pub fn move_cursor_left(&mut self)
        ensures
            final(self).cursor_position == clamped(
                left_pos(old(self).cursor_position as nat),
                old(self).input@.len(),
            ),
            final(self).input@ == old(self).input@,
            final(self).input_mode == old(self).input_mode,
            final(self).messages@ == old(self).messages@,
            final(self).timer == old(self).timer,
            final(self).wf(),
    {
        let moved = if self.cursor_position > 0 {
            self.cursor_position - 1
        } else {
            0
        };
        self.cursor_position = self.clamp_cursor(moved);
    }

    /// Moves the cursor one character right, stopping at the end of the line.
    pub fn move_cursor_right(&mut self)
        ensures
            final(self).cursor_position == right_pos(
                old(self).cursor_position as nat,
                old(self).input@.len(),
            ),
            final(self).input@ == old(self).input@,
            final(self).input_mode == old(self).input_mode,
            final(self).messages@ == old(self).messages@,
            final(self).timer == old(self).timer,
            final(self).wf(),
    {
        let moved = if self.cursor_position < self.input.len() {
            self.cursor_position + 1
        } else {
            self.cursor_position
        };
        self.cursor_position = self.clamp_cursor(moved);
    }

    /// Inserts one character at the cursor and advances the cursor past it.
    /// The character counts as one unit whatever its encoding.
    pub fn enter_char(&mut self, new_char: char)
        requires
            old(self).wf(),
        ensures
            final(self).input@ == old(self).input@.insert(
                old(self).cursor_position as int,
                new_char,
            ),
            final(self).cursor_position == old(self).cursor_position + 1,
            final(self).input_mode == old(self).input_mode,
            final(self).messages@ == old(self).messages@,
            final(self).timer == old(self).timer,
            final(self).wf(),
    {
        self.input.insert(self.cursor_position, new_char);
        self.move_cursor_right();
    }

    /// Removes the character unit immediately left of the cursor and moves
    /// the cursor back one; does nothing when the cursor is at the left edge.
    pub fn delete_char(&mut self)
        requires
            old(self).wf(),
        ensures
            old(self).cursor_position == 0 ==> *final(self) == *old(self),
            old(self).cursor_position != 0 ==> {
                &&& final(self).input@ == old(self).input@.remove(
                    old(self).cursor_position - 1,
                )
                &&& final(self).cursor_position == old(self).cursor_position - 1
            },
            final(self).input_mode == old(self).input_mode,
            final(self).messages@ == old(self).messages@,
            final(self).timer == old(self).timer,
            final(self).wf(),
    {
        let is_not_cursor_leftmost = self.cursor_position != 0;
        if is_not_cursor_leftmost {
            let from_left_to_current_index = self.cursor_position - 1;
            self.input.remove(from_left_to_current_index);
            self.move_cursor_left();
        }
    }

    /// Puts the cursor back at the left edge.
    pub fn reset_cursor(&mut self)
        ensures
            final(self).cursor_position == 0,
            final(self).input@ == old(self).input@,
            final(self).input_mode == old(self).input_mode,
            final(self).messages@ == old(self).messages@,
            final(self).timer == old(self).timer,
            final(self).wf(),
    {
        self.cursor_position = 0;
    }

    /// Appends the line under edit to the history, clears it, and resets
    /// the cursor. Submission never fails; an empty line may be submitted.
    pub fn submit_message(&mut self)
        ensures
            submitted(*old(self), *final(self)),
            final(self).input_mode == old(self).input_mode,
            final(self).timer == old(self).timer,
            final(self).wf(),
    {
        let line = string_of(&self.input);
        self.messages.push(line);
        self.input = Vec::new();
        self.reset_cursor();
    }

    /// Applies one keystroke to the editor, following the mode table, and
    /// reports whether the caller was asked to terminate.
    pub fn handle_key_event(&mut self, key: KeyInput) -> (quit: bool)
        requires
            old(self).wf(),
        ensures
            step_ok(*old(self), key, *final(self), quit),
            final(self).wf(),
    {
        match self.input_mode {
            InputMode::Normal => {
                match key.code {
                    Key::Char(c) => {
                        if c == 'e' {
                            self.input_mode = InputMode::Editing;
                            false
                        } else if c == 'q' {
                            true
                        } else if c == 'c' && key.ctrl {
                            true
                        } else {
                            false
                        }
                    },
                    _ => false,
                }
            },
            InputMode::Editing => {
                if matches!(key.kind, KeyKind::Press) {
                    match key.code {
                        Key::Enter => {
                            self.submit_message();
                            false
                        },
                        Key::Char(to_insert) => {
                            self.enter_char(to_insert);
                            false
                        },
                        Key::Backspace => {
                            self.delete_char();
                            false
                        },
                        Key::Left => {
                            self.move_cursor_left();
                            false
                        },
                        Key::Right => {
                            self.move_cursor_right();
                            false
                        },
                        Key::Esc => {
                            self.input_mode = InputMode::Normal;
                            false
                        },
                        Key::Other => false,
                    }
                } else {
                    false
                }
            },
        }
    }
}

impl Default for App {
    /// Same initial state as `App::new`.
    fn default() -> (app: App)
        ensures
            app.input@ == Seq::<char>::empty(),
            app.cursor_position == 0,
            app.input_mode == InputMode::Normal,
            app.messages@ == Seq::<String>::empty(),
            app.timer == 0,
            app.wf(),
    {
        App::new()
    }
}

/// The cursor after a sequence of Left/Right moves (`false` is Left,
/// `true` is Right) on a line of length `n`.
pub open spec fn cursor_after(start: nat, n: nat, moves: Seq<bool>) -> nat
    decreases moves.len(),
{
    if moves.len() == 0 {
        start
    } else if moves[0] {
        cursor_after(right_pos(start, n), n, moves.drop_first())
    } else {
        cursor_after(left_pos(start), n, moves.drop_first())
    }
}

/// Any sequence of Left/Right moves from a cursor within the line keeps
/// the cursor within the line.
pub proof fn lemma_cursor_bounds(start: nat, n: nat, moves: Seq<bool>)
    requires
        start <= n,
    ensures
        cursor_after(start, n, moves) <= n,
    decreases moves.len(),
{
    if moves.len() != 0 {
        if moves[0] {
            lemma_cursor_bounds(right_pos(start, n), n, moves.drop_first());
        } else {
            lemma_cursor_bounds(left_pos(start), n, moves.drop_first());
        }
    }
}

/// Inserting a character at the cursor and then deleting immediately to its
/// right restores the original line and cursor: a pressed character key
/// followed by a pressed Backspace in `Editing` mode is the identity on the
/// buffer. This also covers multi-unit characters, which enter and leave as
/// one unit.
pub proof fn lemma_insert_then_delete(pre: App, mid: App, post: App, c: char, q1: bool, q2: bool)
    requires
        pre.wf(),
        pre.input_mode == InputMode::Editing,
        step_ok(pre, KeyInput { code: Key::Char(c), kind: KeyKind::Press, ctrl: false }, mid, q1),
        step_ok(mid, KeyInput { code: Key::Backspace, kind: KeyKind::Press, ctrl: false }, post, q2),
    ensures
        post.input@ == pre.input@,
        post.cursor_position == pre.cursor_position,
        !q1 && !q2,
{
    let i = pre.cursor_position as int;
    assert(mid.input@ == pre.input@.insert(i, c));
    assert(mid.cursor_position == i + 1);
    assert(post.input@ == pre.input@.insert(i, c).remove(i));
    assert(pre.input@.insert(i, c).remove(i) =~= pre.input@);
}

/// In `Normal` mode a character key never touches the line, the cursor,
/// or the history; 'e' moves the editor to `Editing` mode.
pub proof fn lemma_normal_char_gating(pre: App, post: App, key: KeyInput, quit: bool)
    requires
        pre.input_mode == InputMode::Normal,
        key.code matches Key::Char(_),
        step_ok(pre, key, post, quit),
    ensures
        post.input@ == pre.input@,
        post.cursor_position == pre.cursor_position,
        post.messages@ == pre.messages@,
        key.code == Key::Char('e') ==> post.input_mode == InputMode::Editing && !quit,
{
}

/// A pressed Escape in `Editing` mode returns the editor to `Normal` mode
/// and alters neither line, cursor, nor history.
pub proof fn lemma_escape_gating(pre: App, post: App, quit: bool)
    requires
        pre.input_mode == InputMode::Editing,
        step_ok(pre, KeyInput { code: Key::Esc, kind: KeyKind::Press, ctrl: false }, post, quit),
    ensures
        post.input_mode == InputMode::Normal,
        post.input@ == pre.input@,
        post.cursor_position == pre.cursor_position,
        post.messages@ == pre.messages@,
        !quit,
{
}

/// 'q', or 'c' with control held, in `Normal` mode signals termination
/// and leaves the whole editor state unchanged.
pub proof fn lemma_quit_gating(pre: App, post: App, key: KeyInput, quit: bool)
    requires
        pre.input_mode == InputMode::Normal,
        key.code == Key::Char('q') || (key.code == Key::Char('c') && key.ctrl),
        step_ok(pre, key, post, quit),
    ensures
        quit,
        post == pre,
{
}

/// A pressed Enter in `Editing` mode empties the line, resets the cursor,
/// and appends exactly the pre-submit line to the history, which is
/// otherwise unchanged.
pub proof fn lemma_submit_clears(pre: App, post: App, key: KeyInput, quit: bool)
    requires
        pre.input_mode == InputMode::Editing,
        key.code == Key::Enter,
        key.kind == KeyKind::Press,
        step_ok(pre, key, post, quit),
    ensures
        post.input@ == Seq::<char>::empty(),
        post.cursor_position == 0,
        post.messages@.len() == pre.messages@.len() + 1,
        post.messages@[pre.messages@.len() as int]@ == pre.input@,
        forall|i: int| 0 <= i < pre.messages@.len() ==> post.messages@[i] == pre.messages@[i],
        !quit,
{
}

} // verus!
