//! From the name of a pressed key to a message for the session.

use vstd::prelude::*;
use vstd::string::StrSliceExecFns;
use crate::game::{is_letter, lowercase, Msg};

verus! {

/// The message that the key named `key` stands for: `Backspace` takes a
/// letter back, `Enter` hands the row in, one of the 26 letters in either
/// case types that letter in lower case, and any other key means nothing.
pub open spec fn key_message(key: Seq<char>) -> Option<Msg> {
    if key == "Backspace"@ {
        Some(Msg::DeleteLetter)
    } else if key == "Enter"@ {
        Some(Msg::SubmitWord)
    } else if key.len() == 1 && is_letter(key[0]) {
        Some(Msg::AddLetter(lowercase(key[0])))
    } else {
        None
    }
}

/// A key types a lower-case letter or no letter at all, and typing turns a
/// lower-case letter into itself.
pub proof fn keys_type_lower_case(key: Seq<char>)
    ensures
        match key_message(key) {
            Some(Msg::AddLetter(c)) => 'a' <= c <= 'z' && lowercase(c) == c,
            _ => true,
        },
{
}

/// Turning into lower case twice is turning once.
pub proof fn lowercase_is_idempotent(c: char)
    ensures
        lowercase(lowercase(c)) == lowercase(c),
        is_letter(c) ==> 'a' <= lowercase(c) <= 'z',
{
}

/// The lower-case form of a letter of the alphabet; any other character
/// stays as it is.
pub fn to_lowercase(c: char) -> (lower: char)
    ensures
        lower == lowercase(c),
{
    if 'A' <= c && c <= 'Z' {
        ((c as u8) + 32) as char
    } else {
        c
    }
}

/// Whether two texts hold the same characters.
pub fn same_text(a: &str, b: &str) -> (same: bool)
    ensures
        same == (a@ == b@),
{
    let n = a.unicode_len();
    if n != b.unicode_len() {
        return false;
    }
    let mut i: usize = 0;
    while i < n
        invariant
            i <= n,
            n == a@.len(),
            n == b@.len(),
            forall|j: int| 0 <= j < i ==> a@[j] == b@[j],
        decreases n - i,
    {
        if a.get_char(i) != b.get_char(i) {
            return false;
        }
        i += 1;
    }
    assert(a@ =~= b@);
    true
}

/// The message that the key named `key` stands for, if any.
pub fn handle_keypress(key: &str) -> (msg: Option<Msg>)
    ensures
        msg == key_message(key@),
{
    if same_text(key, "Backspace") {
        return Some(Msg::DeleteLetter);
    }
    if same_text(key, "Enter") {
        return Some(Msg::SubmitWord);
    }
    if key.unicode_len() == 1 {
        let c = key.get_char(0);
        if ('a' <= c && c <= 'z') || ('A' <= c && c <= 'Z') {
            return Some(Msg::AddLetter(to_lowercase(c)));
        }
    }
    None
}

} // verus!
