//! Simulated key presses: which key a key string stands for.

use vstd::prelude::*;
use crate::text::chars_of;

verus! {

/// The key that a key string stands for: its first character. An empty key string
/// names no key and is not allowed.
pub fn first_char(key: &str) -> (c: char)
    requires
        key@.len() > 0,
    ensures
        c == key@[0],
{
    let v = chars_of(key);
    v[0]
}

/// The key strings for typing `text`: one per character, in order.
pub fn keys_of_text(text: &str) -> (keys: Vec<char>)
    ensures
        keys@ == text@,
{
    chars_of(text)
}

} // verus!
