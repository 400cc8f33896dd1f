//! Taking text apart from its start.

use crate::errors::Error;
use crate::text::{chars_of, string_of_range};
use vstd::prelude::*;
use vstd::slice::slice_subrange;

verus! {

/// What follows `prefix` in `bytes`. Bytes that do not begin with the
/// prefix are an error.
pub fn consume_if_bytes<'a>(bytes: &'a [u8], prefix: &[u8]) -> (rest: Result<&'a [u8], Error>)
    ensures
        prefix@.is_prefix_of(bytes@) <==> rest is Ok,
        rest is Ok ==> rest->Ok_0@ == bytes@.skip(prefix@.len() as int),
        rest is Err ==> rest->Err_0 == Error::NoPrefix,
{
    if prefix.len() > bytes.len() {
        return Err(Error::NoPrefix);
    }
    let mut i: usize = 0;
    while i < prefix.len()
        invariant
            i <= prefix.len() <= bytes.len(),
            forall|j: int| 0 <= j < i ==> prefix@[j] == bytes@[j],
        decreases prefix.len() - i,
    {
        if bytes[i] != prefix[i] {
            return Err(Error::NoPrefix);
        }
        i += 1;
    }
    assert(bytes@.subrange(0, prefix@.len() as int) =~= prefix@);
    let rest = slice_subrange(bytes, prefix.len(), bytes.len());
    assert(bytes@.subrange(prefix@.len() as int, bytes@.len() as int) =~= bytes@.skip(
        prefix@.len() as int,
    ));
    Ok(rest)
}

/// What follows `prefix` in `s`. A text that does not begin with the
/// prefix is an error.
pub fn consume_if_str(s: &str, prefix: &str) -> (rest: Result<String, Error>)
    ensures
        prefix@.is_prefix_of(s@) <==> rest is Ok,
        rest is Ok ==> rest->Ok_0@ == s@.skip(prefix@.len() as int),
        rest is Err ==> rest->Err_0 == Error::NoPrefix,
{
    match crate::text::strip_prefix(s, prefix) {
        Some(rest) => Ok(rest),
        None => Err(Error::NoPrefix),
    }
}

/// `s` in two parts: the characters at its start that `cb` accepts, up to
/// the first that it refuses, and the rest.
pub fn take_while<F: Fn(&char) -> bool>(s: &str, cb: F) -> (parts: (String, String))
    requires
        forall|c: &char| #[trigger] cb.requires((c,)),
    ensures
        parts.0@ + parts.1@ == s@,
        forall|i: int| 0 <= i < parts.0@.len() ==> cb.ensures((&#[trigger] s@[i],), true),
        parts.1@.len() > 0 ==> cb.ensures((&s@[parts.0@.len() as int],), false),
{
    let chars = chars_of(s);
    let mut i: usize = 0;
    while i < chars.len()
        invariant
            i <= chars.len(),
            chars@ == s@,
            forall|c: &char| #[trigger] cb.requires((c,)),
            forall|j: int| 0 <= j < i ==> cb.ensures((&#[trigger] s@[j],), true),
        decreases chars.len() - i,
    {
        if !cb(&chars[i]) {
            let head = string_of_range(&chars, 0, i);
            let tail = string_of_range(&chars, i, chars.len());
            assert(head@ + tail@ =~= s@);
            return (head, tail);
        }
        i += 1;
    }
    let head = string_of_range(&chars, 0, chars.len());
    let tail = String::new();
    assert(head@ + tail@ =~= s@);
    (head, tail)
}

} // verus!
