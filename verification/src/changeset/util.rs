//! Helpers: text from bytes, and the direction of a sort.

use crate::errors::Error;
use std::cmp::Ordering;
use vstd::prelude::*;
use vstd::string::StringSliceAdditionalSpecFns;
use vstd::utf8::valid_utf8;

verus! {

/// Trusted: the error of `core::str::from_utf8`, an opaque value.
#[verifier::external_type_specification]
#[verifier::external_body]
pub struct ExUtf8Error(core::str::Utf8Error);

/// Trusted: `core::str::from_utf8` of the standard library succeeds
/// exactly on bytes that are UTF-8, and the text that it returns has those
/// bytes.
pub assume_specification<'a>[ core::str::from_utf8 ](v: &'a [u8]) -> (text: Result<
    &'a str,
    core::str::Utf8Error,
>)
    ensures
        text is Ok <==> valid_utf8(v@),
        text is Ok ==> text->Ok_0.spec_bytes() == v@,
;

/// Text from a value, and a value from text.
pub trait Utf8 {
    /// The value as text, where it is UTF-8.
    fn to_utf8(&self) -> Result<&str, Error>;

    /// The text as a value.
    fn from_ut8(s: &str) -> Result<&Self, Error>;
}

impl Utf8 for [u8] {
    fn to_utf8(&self) -> (text: Result<&str, Error>)
        ensures
            text is Ok <==> valid_utf8(self@),
            text is Ok ==> text->Ok_0.spec_bytes() == self@,
            text is Err ==> text->Err_0 == Error::NotUtf8,
    {
        match core::str::from_utf8(self) {
            Ok(text) => Ok(text),
            Err(_) => Err(Error::NotUtf8),
        }
    }

    fn from_ut8(s: &str) -> (bytes: Result<&[u8], Error>)
        ensures
            bytes is Ok,
            bytes->Ok_0@ == s.spec_bytes(),
    {
        Ok(s.as_bytes())
    }
}

/// The direction of a sort.
#[derive(Debug, Clone, Copy, PartialEq, Eq, Structural)]
pub enum SortOrder {
    Ascending,
    Descending,
}

/// The order turned round.
pub open spec fn reversed(ord: Ordering) -> Ordering {
    match ord {
        Ordering::Less => Ordering::Greater,
        Ordering::Equal => Ordering::Equal,
        Ordering::Greater => Ordering::Less,
    }
}

impl SortOrder {
    /// An order as this direction sees it: as it is when ascending,
    /// turned round when descending.
    pub open spec fn apply(self, ord: Ordering) -> Ordering {
        match self {
            SortOrder::Ascending => ord,
            SortOrder::Descending => reversed(ord),
        }
    }

    /// How `x` and `y` compare in this direction, `cmp_fn` giving their
    /// order.
    pub fn sort_by<T, Cmp: Fn(&T, &T) -> Ordering>(&self, x: &T, y: &T, cmp_fn: Cmp) -> (out:
        Ordering)
        requires
            cmp_fn.requires((x, y)),
        ensures
            exists|ord: Ordering| #[trigger] cmp_fn.ensures((x, y), ord) && out == self.apply(ord),
    {
        let ord = cmp_fn(x, y);
        let out = match self {
            SortOrder::Ascending => ord,
            SortOrder::Descending => match ord {
                Ordering::Less => Ordering::Greater,
                Ordering::Equal => Ordering::Equal,
                Ordering::Greater => Ordering::Less,
            },
        };
        assert(cmp_fn.ensures((x, y), ord) && out == self.apply(ord));
        out
    }
}

/// Whether a key `a` may stand before a key `b` in a direction: in
/// ascending order where it is not larger, in descending order where it is
/// not smaller.
pub open spec fn in_order(a: u128, b: u128, descending: bool) -> bool {
    if descending {
        a >= b
    } else {
        a <= b
    }
}

/// Whether `perm` lists the indices of `keys` in the order of the keys,
/// indices with equal keys in their own order: every index once, each key
/// in order with all keys behind it.
pub open spec fn is_sorted_order(perm: Seq<usize>, keys: Seq<u128>, descending: bool) -> bool {
    &&& perm.len() == keys.len()
    &&& forall|i: int| 0 <= i < perm.len() ==> (#[trigger] perm[i]) < keys.len()
    &&& forall|i: int, j: int|
        0 <= i < j < perm.len() ==> (#[trigger] perm[i]) != (#[trigger] perm[j]) && in_order(
            keys[perm[i] as int],
            keys[perm[j] as int],
            descending,
        ) && (keys[perm[i] as int] == keys[perm[j] as int] ==> perm[i] < perm[j])
}

/// Whether a key `a` may stand before a key `b` in a direction.
fn stands_in_order(a: u128, b: u128, descending: bool) -> (yes: bool)
    ensures
        yes == in_order(a, b, descending),
{
    if descending {
        a >= b
    } else {
        a <= b
    }
}

/// The indices of `keys` in the order of the keys: ascending or
/// descending, indices with equal keys in their own order.
pub fn sorted_order(keys: &Vec<u128>, descending: bool) -> (perm: Vec<usize>)
    ensures
        is_sorted_order(perm@, keys@, descending),
{
    let mut perm: Vec<usize> = Vec::new();
    let mut i: usize = 0;
    while i < keys.len()
        invariant
            i <= keys@.len(),
            perm@.len() == i,
            forall|a: int| 0 <= a < perm@.len() ==> (#[trigger] perm@[a]) < i,
            forall|a: int, b: int|
                0 <= a < b < perm@.len() ==> (#[trigger] perm@[a]) != (#[trigger] perm@[b])
                    && in_order(keys@[perm@[a] as int], keys@[perm@[b] as int], descending) && (
                keys@[perm@[a] as int] == keys@[perm@[b] as int] ==> perm@[a] < perm@[b]),
        decreases keys@.len() - i,
    {
        let key = keys[i];
        let mut p: usize = 0;
        while p < perm.len() && stands_in_order(keys[perm[p]], key, descending)
            invariant
                p <= perm@.len(),
                i < keys@.len(),
                key == keys@[i as int],
                forall|a: int| 0 <= a < perm@.len() ==> (#[trigger] perm@[a]) < i,
                forall|a: int|
                    0 <= a < p ==> in_order(keys@[(#[trigger] perm@[a]) as int], key, descending),
            decreases perm@.len() - p,
        {
            p += 1;
        }
        let ghost before = perm@;
        perm.insert(p, i);
        proof {
            let now = perm@;
            assert(now =~= before.insert(p as int, i));
            assert forall|a: int, b: int| 0 <= a < b < now.len() implies (#[trigger] now[a]) != (
            #[trigger] now[b]) && in_order(
                keys@[now[a] as int],
                keys@[now[b] as int],
                descending,
            ) && (keys@[now[a] as int] == keys@[now[b] as int] ==> now[a] < now[b]) by {
                if a < p && b < p {
                    assert(now[a] == before[a] && now[b] == before[b]);
                } else if a < p && b == p {
                    assert(now[a] == before[a]);
                } else if a < p && b > p {
                    assert(now[a] == before[a] && now[b] == before[b - 1]);
                } else if a == p {
                    assert(now[b] == before[b - 1]);
                    assert(!in_order(keys@[before[p as int] as int], key, descending));
                    assert(in_order(
                        keys@[before[p as int] as int],
                        keys@[before[b - 1] as int],
                        descending,
                    ) || p == b - 1);
                } else {
                    assert(now[a] == before[a - 1] && now[b] == before[b - 1]);
                }
            }
            assert forall|a: int| 0 <= a < now.len() implies (#[trigger] now[a]) < i + 1 by {
                if a < p {
                    assert(now[a] == before[a]);
                } else if a > p {
                    assert(now[a] == before[a - 1]);
                }
            }
        }
        i += 1;
    }
    perm
}

} // verus!
