//! Locks that are found by name.

use crate::text::{chars_of, find_char, first_match, is_char};
use vstd::prelude::*;

verus! {

/// The longest name that a lock can have.
pub const MAX_PATH: usize = 260;

/// Whether a lock can have the name: the name has at most `MAX_PATH`
/// bytes and holds no `/`.
pub fn is_valid_namespace(name: &str) -> (ok: bool)
    ensures
        ok == (vstd::utf8::encode_utf8(name@).len() <= MAX_PATH && first_match(name@, is_char('/'))
            == name@.len()),
{
    let chars = chars_of(name);
    name.as_bytes().len() <= MAX_PATH && find_char(&chars, '/') == chars.len()
}

} // verus!
