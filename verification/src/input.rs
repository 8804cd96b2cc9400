//! The line of text that the user is typing, and the keys that edit it.
//!
//! The line is a sequence of characters and the cursor counts characters:
//! a cursor at `idx` stands before the character at `idx`, and at the end
//! of the line where `idx` is the line's length.

use vstd::prelude::*;

verus! {

/// The keys that the chat knows.
#[derive(Debug, Clone, Copy, PartialEq, Eq)]
pub enum KeyCode {
    Backspace,
    Delete,
    Char(char),
    Left,
    Right,
    Home,
    End,
    Enter,
    Esc,
    /// Any key that means nothing here.
    Other,
}

/// A key press.
#[derive(Debug, Clone, Copy, PartialEq, Eq)]
pub struct KeyEvent {
    pub code: KeyCode,
    /// Whether the control key was held.
    pub control: bool,
}

/// What has the keyboard.
#[derive(Debug, Clone, Copy, PartialEq, Eq)]
pub enum Focus {
    /// The input line, with the cursor at `idx`.
    Input { idx: usize },
    /// The messages.
    Chat { idx: usize },
}

/// The characters that make up a word for the purpose of erasing one.
pub open spec fn is_word_char(c: char) -> bool {
    ('a' <= c && c <= 'z') || ('A' <= c && c <= 'Z') || ('0' <= c && c <= '9') || c == '_' || c
        == '-'
}

pub fn word_char(c: char) -> (b: bool)
    ensures
        b == is_word_char(c),
{
    ('a' <= c && c <= 'z') || ('A' <= c && c <= 'Z') || ('0' <= c && c <= '9') || c == '_' || c
        == '-'
}

/// A line and its cursor as a value.
pub struct Line {
    pub text: Seq<char>,
    pub idx: int,
}

/// Taking out the character at `idx + offset`: where there is one, the line
/// is left without it and the cursor stands where it was; where there is
/// none, nothing changes.
pub open spec fn popped(l: Line, offset: int) -> (Line, Option<char>) {
    let pos = l.idx + offset;
    if 0 <= pos < l.text.len() {
        (Line { text: l.text.remove(pos), idx: pos }, Some(l.text[pos]))
    } else {
        (l, None)
    }
}

/// Erasing backwards from the cursor: characters before the cursor go one
/// by one, up to and including the first that is no word character.
pub open spec fn word_erased(l: Line) -> Line
    decreases l.text.len(),
{
    let (after, ch) = popped(l, -1);
    match ch {
        Some(c) => if is_word_char(c) {
            word_erased(after)
        } else {
            after
        },
        None => l,
    }
}

/// The cursor held to the line.
pub open spec fn clamped(idx: int, len: int) -> int {
    if idx < len {
        idx
    } else {
        len
    }
}

/// The line after a key that edits or moves. A cursor that stands past the
/// end counts as standing at the end.
pub open spec fn edited(l: Line, key: KeyEvent) -> Line {
    let at = Line { text: l.text, idx: clamped(l.idx, l.text.len() as int) };
    match key.code {
        KeyCode::Backspace => if key.control {
            word_erased(at)
        } else {
            popped(at, -1).0
        },
        KeyCode::Delete => popped(at, 0).0,
        KeyCode::Char(c) => Line { text: at.text.insert(at.idx, c), idx: at.idx + 1 },
        KeyCode::Left => Line {
            idx: if at.idx > 0 {
                at.idx - 1
            } else {
                0
            },
            ..at
        },
        KeyCode::Right => Line { idx: clamped(at.idx + 1, at.text.len() as int), ..at },
        KeyCode::Home => Line { idx: 0, ..at },
        KeyCode::End => Line { idx: at.text.len() as int, ..at },
        _ => l,
    }
}

/// Takes out the character at `idx + offset`, if there is one.
pub fn pop_input(input: &mut Vec<char>, idx: &mut usize, offset: isize) -> (ch: Option<char>)
    ensures
        ({
            let r = popped(Line { text: old(input)@, idx: *old(idx) as int }, offset as int);
            &&& final(input)@ == r.0.text
            &&& *final(idx) == r.0.idx
            &&& ch == r.1
        }),
{
    let pos: i128 = *idx as i128 + offset as i128;
    if pos < 0 || pos >= input.len() as i128 {
        return None;
    }
    let at: usize = pos as usize;
    let ch = input.remove(at);
    *idx = at;
    Some(ch)
}

/// Erases backwards from the cursor to the start of the word.
pub fn erase_word(input: &mut Vec<char>, idx: &mut usize)
    ensures
        ({
            let r = word_erased(Line { text: old(input)@, idx: *old(idx) as int });
            &&& final(input)@ == r.text
            &&& *final(idx) == r.idx
        }),
{
    loop
        invariant_except_break
            word_erased(Line { text: old(input)@, idx: *old(idx) as int }) == word_erased(
                Line { text: input@, idx: *idx as int },
            ),
        ensures
            word_erased(Line { text: old(input)@, idx: *old(idx) as int }) == (Line {
                text: input@,
                idx: *idx as int,
            }),
        decreases input@.len(),
    {
        match pop_input(input, idx, -1) {
            Some(c) => {
                if !word_char(c) {
                    break ;
                }
            },
            None => {
                break ;
            },
        }
    }
}

/// Applies a key that edits or moves to the line.
pub fn edit(input: &mut Vec<char>, idx: &mut usize, key: KeyEvent)
    ensures
        ({
            let r = edited(Line { text: old(input)@, idx: *old(idx) as int }, key);
            &&& final(input)@ == r.text
            &&& *final(idx) == r.idx
        }),
{
    match key.code {
        KeyCode::Backspace | KeyCode::Delete | KeyCode::Char(_) | KeyCode::Left | KeyCode::Right
        | KeyCode::Home | KeyCode::End => {
            if *idx > input.len() {
                *idx = input.len();
            }
        },
        _ => {},
    }
    match key.code {
        KeyCode::Backspace => {
            if key.control {
                erase_word(input, idx);
            } else {
                let _ = pop_input(input, idx, -1);
            }
        },
        KeyCode::Delete => {
            let _ = pop_input(input, idx, 0);
        },
        KeyCode::Char(c) => {
            input.insert(*idx, c);
            assert(*idx < input@.len());
            let len: usize = input.len();
            if *idx < len {
                *idx = *idx + 1;
            }
        },
        KeyCode::Left => {
            if *idx > 0 {
                *idx = *idx - 1;
            }
        },
        KeyCode::Right => {
            if *idx < input.len() {
                *idx = *idx + 1;
            }
        },
        KeyCode::Home => {
            *idx = 0;
        },
        KeyCode::End => {
            *idx = input.len();
        },
        _ => {},
    }
}

/// How far right of the prompt the cursor is drawn: the cursor's place,
/// and the start of the line once that no longer fits the screen's
/// coordinates.
pub fn cursor_column(idx: usize) -> (col: u16)
    ensures
        col == if idx <= u16::MAX {
            idx as u16
        } else {
            0u16
        },
{
    if idx <= 0xffff {
        idx as u16
    } else {
        0
    }
}

/// An edit keeps the cursor on the line.
pub proof fn edit_keeps_cursor_on_line(l: Line, key: KeyEvent)
    requires
        0 <= l.idx <= l.text.len(),
    ensures
        0 <= edited(l, key).idx <= edited(l, key).text.len(),
{
    let at = Line { text: l.text, idx: clamped(l.idx, l.text.len() as int) };
    lemma_word_erased_on_line(at);
}

proof fn lemma_word_erased_on_line(l: Line)
    requires
        0 <= l.idx <= l.text.len(),
    ensures
        0 <= word_erased(l).idx <= word_erased(l).text.len(),
    decreases l.text.len(),
{
    let (after, ch) = popped(l, -1);
    if ch is Some && is_word_char(ch.unwrap()) {
        lemma_word_erased_on_line(after);
    }
}

} // verus!
