//! The terminal views as state machines: each view takes a key, or the result of the git
//! work it asked for, and answers with its next state and what it wants next (more git
//! work, or the action the key ends in). The front end draws the views and does the work.
use vstd::prelude::*;
use crate::error::{Error, ErrorV, error_text};

pub mod submodule;
pub mod branch;
pub mod stash;
pub mod stage;
pub mod log;
pub mod diff;
pub mod conflict;
pub mod session;

verus! {

/// Arrow keys, mapped to control characters so that text input ignores them.
pub const UP: char = '\u{10}';
pub const DOWN: char = '\u{0e}';
pub const LEFT: char = '\u{02}';
pub const RIGHT: char = '\u{06}';

/// A Unicode control character (general category Cc).
pub open spec fn is_control_spec(c: char) -> bool {
    (c as u32) < 0x20 || (0x7f <= (c as u32) && (c as u32) < 0xa0)
}

pub fn is_control(c: char) -> (r: bool)
    ensures
        r == is_control_spec(c),
{
    let n = c as u32;
    n < 0x20 || (0x7f <= n && n < 0xa0)
}

/// Backspace or delete.
pub open spec fn is_backspace(c: char) -> bool {
    c == '\x08' || c == '\x7f'
}

/// A line being typed after key `c`: backspace removes the last character, any other
/// printable character is added, the rest leaves it as it is.
pub open spec fn edit_spec(input: Seq<char>, c: char) -> Seq<char> {
    if is_backspace(c) {
        if input.len() > 0 { input.drop_last() } else { input }
    } else if !is_control_spec(c) {
        input.push(c)
    } else {
        input
    }
}

pub fn edit_input(input: &mut Vec<char>, c: char)
    ensures
        final(input)@ == edit_spec(old(input)@, c),
{
    if c == '\x08' || c == '\x7f' {
        if input.len() > 0 {
            input.pop();
        }
    } else if !is_control(c) {
        input.push(c);
    }
}

/// `a` followed by `b`.
pub fn cat2(a: &str, b: &str) -> (r: String)
    ensures
        r@ == a@ + b@,
{
    let mut v = crate::text::chars_of(a);
    crate::text::push_str(&mut v, b);
    crate::text::string_of(&v)
}

/// `a`, `b` and `c` one after the other.
pub fn cat3(a: &str, b: &str, c: &str) -> (r: String)
    ensures
        r@ == a@ + b@ + c@,
{
    let mut v = crate::text::chars_of(a);
    crate::text::push_str(&mut v, b);
    crate::text::push_str(&mut v, c);
    crate::text::string_of(&v)
}

/// `prefix` followed by the error's text.
pub fn with_error(prefix: &str, e: &Error) -> (r: String)
    ensures
        r@ == prefix@ + error_text(e.view()),
{
    let t = e.message();
    cat2(prefix, t.as_str())
}

/// The cursor one row down, if there is a row below it.
pub open spec fn down_spec(cursor: usize, len: nat) -> usize {
    if cursor + 1 < len { (cursor + 1) as usize } else { cursor }
}

/// The cursor one row up, if there is a row above it.
pub open spec fn up_spec(cursor: usize) -> usize {
    if cursor > 0 { (cursor - 1) as usize } else { cursor }
}

/// Whether moving down from `cursor` among `len` rows is possible.
pub fn can_go_down(cursor: usize, len: usize) -> (r: bool)
    ensures
        r == (cursor + 1 < len),
{
    len > 0 && cursor < len - 1
}

/// The cursor kept on a row after the list shrank to `len` rows (a cursor past the end
/// goes to the last row; an empty list keeps it).
pub open spec fn clamp_spec(cursor: usize, len: nat) -> usize {
    if cursor >= len && len > 0 { (len - 1) as usize } else { cursor }
}

pub fn clamp_cursor(cursor: usize, len: usize) -> (r: usize)
    ensures
        r == clamp_spec(cursor, len as nat),
{
    if cursor >= len && len > 0 { len - 1 } else { cursor }
}

} // verus!
