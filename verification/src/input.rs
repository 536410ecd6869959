use vstd::prelude::*;
use crate::action::{Action, ActionView, action_views};
use crate::event::{Event, KeyCode, pressed, is_press_of};
use crate::mode::Mode;
use crate::text::{byte_len, char_at_byte, char_index_at, text_byte_len, utf8_len, lemma_boundary_found,
    lemma_boundary_valid, lemma_byte_len_concat, lemma_take_all};

verus! {

/// Milliseconds between two blinks of the cursor.
pub const BLINK_MILLIS: u64 = 500;

/// A one-line text field with a cursor. The cursor `idx` is a byte offset
/// into the UTF-8 text and never passes its end; each typed character moves
/// it one byte, whatever the character's width.
pub struct InputComponent {
    pub input: Vec<char>,
    pub idx: usize,
    pub focused: bool,
    pub show_cursor: bool,
    /// When the cursor last blinked, in milliseconds of the application clock.
    pub last_cursor_tick: u64,
}

/// Whether a key event asks the field to take the focus: `i` pressed in the normal mode.
pub open spec fn focus_requested(event: Event, mode: Mode) -> bool {
    is_press_of(event, KeyCode::Char('i')) && mode is Normal
}

/// The key pressed while the field is being edited, if the event is one.
pub open spec fn edit_key(event: Event, mode: Mode) -> Option<KeyCode> {
    if mode is Search {
        pressed(event)
    } else {
        None
    }
}

/// The text after an editing key: a character is inserted at the cursor's
/// byte offset, backspace removes the character that starts one byte before
/// the cursor.
pub open spec fn edited_text(text: Seq<char>, idx: int, key: KeyCode) -> Seq<char> {
    match key {
        KeyCode::Char(c) => match char_at_byte(text, idx) {
            Some(k) => text.insert(k, c),
            None => text,
        },
        KeyCode::Backspace => if idx > 0 {
            match char_at_byte(text, idx - 1) {
                Some(k) => text.remove(k),
                None => text,
            }
        } else {
            text
        },
        _ => text,
    }
}

/// The cursor after an editing key: one byte right after a typed character,
/// one byte left for backspace and `Left`, and one byte right for `Right`
/// while that stays before the last byte.
pub open spec fn edited_cursor(text: Seq<char>, idx: int, key: KeyCode) -> int {
    match key {
        KeyCode::Char(_) => idx + 1,
        KeyCode::Backspace | KeyCode::Left => if idx > 0 {
            idx - 1
        } else {
            0
        },
        KeyCode::Right => if idx + 1 < byte_len(text) {
            idx + 1
        } else {
            idx
        },
        _ => idx,
    }
}

/// The actions a text field sends for a key event: leaving the search with
/// `Esc` goes back to the normal mode.
pub open spec fn input_actions(event: Event, mode: Mode) -> Seq<ActionView> {
    if edit_key(event, mode) == Some(KeyCode::Esc) {
        seq![ActionView::Enter(Mode::Normal)]
    } else {
        Seq::empty()
    }
}

/// An editing key the text `String` cannot take: a character typed where the
/// cursor is not on a character boundary, backspace where the byte before the
/// cursor does not start a character, or `Right` on an empty text.
pub open spec fn key_faults(text: Seq<char>, idx: int, key: KeyCode) -> bool {
    match key {
        KeyCode::Char(_) => char_at_byte(text, idx) is None,
        KeyCode::Backspace => idx > 0 && char_at_byte(text, idx - 1) is None,
        KeyCode::Right => byte_len(text) == 0,
        _ => false,
    }
}

/// A key event the field cannot take (see `key_faults`).
pub open spec fn input_event_faults(text: Seq<char>, idx: int, event: Event, mode: Mode) -> bool {
    match edit_key(event, mode) {
        Some(k) => key_faults(text, idx, k),
        None => false,
    }
}

/// Inserting a character adds its bytes.
pub proof fn lemma_insert_bytes(text: Seq<char>, k: int, c: char)
    requires
        0 <= k <= text.len(),
    ensures
        byte_len(text.insert(k, c)) == byte_len(text) + utf8_len(c),
        text.insert(k, c).take(k) == text.take(k),
{
    assert(text.insert(k, c) =~= text.take(k) + seq![c] + text.skip(k));
    assert(text =~= text.take(k) + text.skip(k));
    lemma_byte_len_concat(text.take(k) + seq![c], text.skip(k));
    lemma_byte_len_concat(text.take(k), seq![c]);
    lemma_byte_len_concat(text.take(k), text.skip(k));
    assert(seq![c].drop_last() =~= Seq::<char>::empty());
    assert(byte_len(Seq::<char>::empty()) == 0);
    assert(byte_len(seq![c]) == utf8_len(c));
    assert(text.insert(k, c).take(k) =~= text.take(k));
}

/// Removing a character leaves at least the bytes before it.
pub proof fn lemma_remove_bytes(text: Seq<char>, k: int)
    requires
        0 <= k < text.len(),
    ensures
        byte_len(text.take(k)) <= byte_len(text.remove(k)),
        text.remove(k).take(k) == text.take(k),
{
    assert(text.remove(k) =~= text.take(k) + text.skip(k + 1));
    lemma_byte_len_concat(text.take(k), text.skip(k + 1));
    assert(text.remove(k).take(k) =~= text.take(k));
}

/// After an editing key the field can take, the cursor stays within the text.
pub proof fn lemma_edit_keeps_cursor_in_text(text: Seq<char>, idx: int, key: KeyCode)
    requires
        0 <= idx <= byte_len(text),
        !key_faults(text, idx, key),
    ensures
        0 <= edited_cursor(text, idx, key) <= byte_len(edited_text(text, idx, key)),
{
    match key {
        KeyCode::Char(c) => {
            lemma_boundary_valid(text, idx, 0);
            lemma_insert_bytes(text, char_at_byte(text, idx)->0, c);
        },
        KeyCode::Backspace => {
            if idx > 0 {
                let k = char_at_byte(text, idx - 1)->0;
                lemma_boundary_valid(text, idx - 1, 0);
                lemma_take_all(text);
                lemma_remove_bytes(text, k);
            }
        },
        _ => {},
    }
}

/// How a key event changes a text field: its text and cursor follow the
/// editing key, it takes the focus on `i` in the normal mode (restarting the
/// blink clock at `now`) and loses it on `Esc`; the blink state stays.
pub open spec fn input_step(old: &InputComponent, new: &InputComponent, event: Event, mode: Mode, now: u64) -> bool {
    &&& new.input@ == (match edit_key(event, mode) {
        Some(k) => edited_text(old.input@, old.idx as int, k),
        None => old.input@,
    })
    &&& new.idx == (match edit_key(event, mode) {
        Some(k) => edited_cursor(old.input@, old.idx as int, k),
        None => old.idx as int,
    })
    &&& new.focused == if focus_requested(event, mode) {
        true
    } else if edit_key(event, mode) == Some(KeyCode::Esc) {
        false
    } else {
        old.focused
    }
    &&& new.last_cursor_tick == if focus_requested(event, mode) { now } else { old.last_cursor_tick }
    &&& new.show_cursor == old.show_cursor
}

impl InputComponent {
    /// The cursor is within the text's bytes.
    pub open spec fn wf(&self) -> bool {
        self.idx <= byte_len(self.input@)
    }

    /// A new, empty, unfocused field with its cursor shown.
    pub fn new() -> (c: InputComponent)
        ensures
            c.input@ == Seq::<char>::empty(),
            c.idx == 0,
            !c.focused,
            c.show_cursor,
            c.last_cursor_tick == 0,
            c.wf(),
    {
        InputComponent { input: Vec::new(), idx: 0, focused: false, show_cursor: true, last_cursor_tick: 0 }
    }

    /// The text typed so far.
    pub fn content(&self) -> (s: String)
        ensures
            s@ == self.input@,
    {
        let mut s = String::new();
        let mut k: usize = 0;
        while k < self.input.len()
            invariant
                k <= self.input@.len(),
                s@ == self.input@.take(k as int),
            decreases self.input@.len() - k,
        {
            crate::text::push_char(&mut s, self.input[k]);
            k = k + 1;
            proof {
                assert(self.input@.take(k as int) =~= self.input@.take(k - 1).push(self.input@[k - 1]));
            }
        }
        proof {
            assert(self.input@.take(self.input@.len() as int) =~= self.input@);
        }
        s
    }

    /// Inserts `ch` at byte offset `idx` and moves the cursor one byte right.
    /// `idx` is on a character boundary (`String::insert` panics otherwise).
    pub fn insert_at(&mut self, idx: usize, ch: char)
        requires
            char_at_byte(old(self).input@, idx as int) is Some,
            old(self).idx < usize::MAX,
        ensures
            final(self).input@ == old(self).input@.insert(char_at_byte(old(self).input@, idx as int)->0, ch),
            final(self).idx == old(self).idx + 1,
            old(self).wf() ==> final(self).wf(),
            final(self).focused == old(self).focused,
            final(self).show_cursor == old(self).show_cursor,
            final(self).last_cursor_tick == old(self).last_cursor_tick,
    {
        proof {
            lemma_boundary_valid(old(self).input@, idx as int, 0);
        }
        match char_index_at(&self.input, idx) {
            Some(k) => {
                proof {
                    lemma_insert_bytes(self.input@, k as int, ch);
                }
                self.input.insert(k, ch);
            },
            None => {},
        }
        self.idx = self.idx + 1;
    }

    /// Deletes the character that starts one byte before the cursor, and
    /// moves the cursor one byte left; nothing at the start. That byte is on a
    /// character boundary (`String::remove` panics otherwise).
    pub fn delete(&mut self)
        requires
            old(self).wf(),
            !key_faults(old(self).input@, old(self).idx as int, KeyCode::Backspace),
        ensures
            final(self).input@ == edited_text(old(self).input@, old(self).idx as int, KeyCode::Backspace),
            final(self).idx == edited_cursor(old(self).input@, old(self).idx as int, KeyCode::Backspace),
            final(self).focused == old(self).focused,
            final(self).show_cursor == old(self).show_cursor,
            final(self).last_cursor_tick == old(self).last_cursor_tick,
            final(self).wf(),
    {
        proof {
            lemma_edit_keeps_cursor_in_text(old(self).input@, old(self).idx as int, KeyCode::Backspace);
        }
        if self.idx > 0 {
            self.idx = self.idx - 1;
            proof {
                lemma_boundary_valid(old(self).input@, self.idx as int, 0);
                lemma_take_all(old(self).input@);
            }
            match char_index_at(&self.input, self.idx) {
                Some(k) => {
                    self.input.remove(k);
                },
                None => {},
            }
        }
    }

    /// Moves the cursor one byte left, unless it is at the start.
    pub fn left(&mut self)
        ensures
            final(self).idx == edited_cursor(old(self).input@, old(self).idx as int, KeyCode::Left),
            final(self).input@ == old(self).input@,
            old(self).wf() ==> final(self).wf(),
            final(self).focused == old(self).focused,
            final(self).show_cursor == old(self).show_cursor,
            final(self).last_cursor_tick == old(self).last_cursor_tick,
    {
        if self.idx > 0 {
            self.idx = self.idx - 1;
        }
    }

    /// Moves the cursor one byte right while it stays before the last byte.
    /// The text must not be empty (its length less one would underflow).
    pub fn right(&mut self)
        requires
            byte_len(old(self).input@) > 0,
            old(self).idx < usize::MAX,
        ensures
            final(self).idx == edited_cursor(old(self).input@, old(self).idx as int, KeyCode::Right),
            final(self).input@ == old(self).input@,
            old(self).wf() ==> final(self).wf(),
            final(self).focused == old(self).focused,
            final(self).show_cursor == old(self).show_cursor,
            final(self).last_cursor_tick == old(self).last_cursor_tick,
    {
        if (self.idx as u128) < text_byte_len(&self.input) - 1 {
            self.idx = self.idx + 1;
        }
    }

    /// Whether the text `String` cannot take the editing key `key` (see
    /// `key_faults`).
    pub fn faults_on(&self, key: KeyCode) -> (b: bool)
        ensures
            b == key_faults(self.input@, self.idx as int, key),
    {
        match key {
            KeyCode::Char(_) => char_index_at(&self.input, self.idx).is_none(),
            KeyCode::Backspace => self.idx > 0 && char_index_at(&self.input, self.idx - 1).is_none(),
            KeyCode::Right => text_byte_len(&self.input) == 0,
            _ => false,
        }
    }

    /// Blinks the cursor of a focused field when at least `BLINK_MILLIS`
    /// passed since the last blink; `now` is the application clock.
    pub fn tick(&mut self, now: u64)
        ensures
            ({
                let due = old(self).focused && now >= old(self).last_cursor_tick
                    && now - old(self).last_cursor_tick >= BLINK_MILLIS;
                &&& final(self).show_cursor == if due { !old(self).show_cursor } else { old(self).show_cursor }
                &&& final(self).last_cursor_tick == if due { now } else { old(self).last_cursor_tick }
            }),
            final(self).input@ == old(self).input@,
            final(self).idx == old(self).idx,
            final(self).focused == old(self).focused,
    {
        if self.focused && now >= self.last_cursor_tick && now - self.last_cursor_tick >= BLINK_MILLIS {
            self.show_cursor = !self.show_cursor;
            self.last_cursor_tick = now;
        }
    }

    /// The column of the area where the cursor is drawn, when it is drawn.
    pub fn cursor_column(&self) -> (col: Option<usize>)
        requires
            self.idx < usize::MAX,
        ensures
            col == if self.focused && self.show_cursor { Some((self.idx + 1) as usize) } else { None::<usize> },
    {
        if self.focused && self.show_cursor {
            Some(self.idx + 1)
        } else {
            None
        }
    }


    /// Handles a terminal event: `i` in the normal mode focuses the field
    /// (and restarts the blink clock at `now`); in the search mode keys edit
    /// the text and `Esc` leaves the field, sending `Enter(Normal)`.
    pub fn dispatch_event(&mut self, event: Event, mode: &Mode, now: u64) -> (actions: Vec<Action>)
        requires
            old(self).wf(),
            old(self).idx < usize::MAX,
            !input_event_faults(old(self).input@, old(self).idx as int, event, *mode),
        ensures
            final(self).wf(),
            action_views(actions@) == input_actions(event, *mode),
            input_step(old(self), final(self), event, *mode, now),
    {
        let mut actions: Vec<Action> = Vec::new();
        let key = event.pressed_key();
        if let Some(KeyCode::Char('i')) = key {
            if mode.is_normal() {
                self.last_cursor_tick = now;
                self.focused = true;
            }
        }
        if let Mode::Search = mode {
            if let Some(code) = key {
                match code {
                    KeyCode::Char(ch) => {
                        self.insert_at(self.idx, ch);
                    },
                    KeyCode::Backspace => {
                        self.delete();
                    },
                    KeyCode::Left => {
                        self.left();
                    },
                    KeyCode::Right => {
                        self.right();
                    },
                    KeyCode::Esc => {
                        self.focused = false;
                        actions.push(Action::Enter(Mode::Normal));
                    },
                    _ => {},
                }
            }
        }
        proof {
            assert(action_views(actions@) =~= input_actions(event, *mode));
        }
        actions
    }
}

/// Typing a character at the cursor and deleting it again leaves the text
/// and the cursor as they were (for a cursor on a character boundary).
pub proof fn lemma_insert_then_delete(text: Seq<char>, idx: int, c: char)
    requires
        char_at_byte(text, idx) is Some,
    ensures
        edited_text(edited_text(text, idx, KeyCode::Char(c)), edited_cursor(text, idx, KeyCode::Char(c)), KeyCode::Backspace) == text,
        edited_cursor(edited_text(text, idx, KeyCode::Char(c)), edited_cursor(text, idx, KeyCode::Char(c)), KeyCode::Backspace) == idx,
{
    let k = char_at_byte(text, idx)->0;
    lemma_boundary_valid(text, idx, 0);
    lemma_insert_bytes(text, k, c);
    let t2 = text.insert(k, c);
    lemma_boundary_found(t2, idx, k, 0);
    assert(t2.remove(k) =~= text);
}

/// A field whose cursor is on a character boundary, after `insert_at` at the
/// cursor and then `delete`, holds the text and the cursor it had.
pub proof fn lemma_insert_at_then_delete_restores(s0: &InputComponent, s1: &InputComponent, s2: &InputComponent, ch: char)
    requires
        s0.wf(),
        char_at_byte(s0.input@, s0.idx as int) is Some,
        s1.input@ == s0.input@.insert(char_at_byte(s0.input@, s0.idx as int)->0, ch),
        s1.idx == s0.idx + 1,
        s2.input@ == edited_text(s1.input@, s1.idx as int, KeyCode::Backspace),
        s2.idx == edited_cursor(s1.input@, s1.idx as int, KeyCode::Backspace),
    ensures
        s2.input@ == s0.input@,
        s2.idx == s0.idx,
{
    lemma_insert_then_delete(s0.input@, s0.idx as int, ch);
}

} // verus!
