//! Text primitives shared by the whole library.
//!
//! Every string is reasoned about through its view, a `Seq<char>`. The
//! executable helpers convert a `&str` to its characters once, work on the
//! character vector, and build the resulting `String` character by character.

use vstd::prelude::*;
use vstd::std_specs::iter::IteratorSpec;

verus! {

/// Trusted: `String::push` of the standard library appends exactly one
/// character to the end of the string and leaves the rest unchanged.
pub assume_specification[ String::push ](s: &mut String, ch: char)
    ensures
        final(s)@ == old(s)@.push(ch),
;

/// The characters of `s`, in order.
pub fn chars_of(s: &str) -> (out: Vec<char>)
    ensures
        out@ == s@,
{
    let mut out: Vec<char> = Vec::new();
    let mut it = s.chars();
    loop
        invariant
            out@ + it.remaining() == s@,
            it.decrease() is Some,
        ensures
            out@ == s@,
        decreases it.decrease()->0,
    {
        let ghost prefix = out@;
        let ghost rest = it.remaining();
        match it.next() {
            Some(c) => {
                out.push(c);
                assert(out@ + it.remaining() =~= prefix + rest);
            },
            None => {
                assert(out@ =~= prefix + rest);
                break ;
            },
        }
    }
    out
}

/// The string whose characters are `chars[from..to]`.
pub fn string_of_range(chars: &Vec<char>, from: usize, to: usize) -> (out: String)
    requires
        from <= to <= chars.len(),
    ensures
        out@ == chars@.subrange(from as int, to as int),
{
    let mut out = String::new();
    let mut i: usize = from;
    while i < to
        invariant
            from <= i <= to <= chars.len(),
            out@ == chars@.subrange(from as int, i as int),
        decreases to - i,
    {
        out.push(chars[i]);
        i += 1;
        assert(out@ =~= chars@.subrange(from as int, i as int));
    }
    out
}

/// Whether two strings hold the same characters.
pub fn str_eq(a: &str, b: &str) -> (same: bool)
    ensures
        same == (a@ == b@),
{
    let x = chars_of(a);
    let y = chars_of(b);
    seq_eq(&x, &y)
}

/// Whether two character vectors hold the same characters.
pub fn seq_eq(x: &Vec<char>, y: &Vec<char>) -> (same: bool)
    ensures
        same == (x@ == y@),
{
    if x.len() != y.len() {
        return false;
    }
    let mut i: usize = 0;
    while i < x.len()
        invariant
            i <= x.len(),
            x.len() == y.len(),
            x@.subrange(0, i as int) == y@.subrange(0, i as int),
        decreases x.len() - i,
    {
        if x[i] != y[i] {
            return false;
        }
        i += 1;
        assert(x@.subrange(0, i as int) =~= x@.subrange(0, i - 1).push(x@[i - 1]));
        assert(y@.subrange(0, i as int) =~= y@.subrange(0, i - 1).push(y@[i - 1]));
    }
    assert(x@.subrange(0, x.len() as int) =~= x@);
    assert(y@.subrange(0, y.len() as int) =~= y@);
    true
}

/// `a` followed by `b`.
pub fn concat(a: &str, b: &str) -> (out: String)
    ensures
        out@ == a@ + b@,
{
    let mut out = a.to_owned();
    out.append(b);
    out
}

/// `a`, `b` and `c` in a row.
pub fn concat3(a: &str, b: &str, c: &str) -> (out: String)
    ensures
        out@ == a@ + b@ + c@,
{
    let mut out = a.to_owned();
    out.append(b);
    out.append(c);
    out
}

/// The predicate "is the character `c`".
pub open spec fn is_char(c: char) -> spec_fn(char) -> bool {
    |x: char| x == c
}

/// The index of the first element of `s` that satisfies `p`, or the length
/// of `s` where none does.
pub open spec fn first_match<T>(s: Seq<T>, p: spec_fn(T) -> bool) -> int
    decreases s.len(),
{
    if s.len() == 0 {
        0
    } else if p(s[0]) {
        0
    } else {
        1 + first_match(s.drop_first(), p)
    }
}

/// `first_match` is within bounds, names an element that satisfies `p`
/// unless it is the length, and no earlier element satisfies `p`.
pub proof fn lemma_first_match<T>(s: Seq<T>, p: spec_fn(T) -> bool)
    ensures
        0 <= first_match(s, p) <= s.len(),
        first_match(s, p) < s.len() ==> p(s[first_match(s, p)]),
        forall|j: int| 0 <= j < first_match(s, p) ==> !p(#[trigger] s[j]),
    decreases s.len(),
{
    if s.len() != 0 && !p(s[0]) {
        let t = s.drop_first();
        lemma_first_match(t, p);
        assert forall|j: int| 0 <= j < first_match(s, p) implies !p(#[trigger] s[j]) by {
            if j > 0 {
                assert(s[j] == t[j - 1]);
            }
        }
    }
}

/// An index with the properties of `first_match` is `first_match`.
pub proof fn lemma_first_match_is<T>(s: Seq<T>, p: spec_fn(T) -> bool, i: int)
    requires
        0 <= i <= s.len(),
        i < s.len() ==> p(s[i]),
        forall|j: int| 0 <= j < i ==> !p(#[trigger] s[j]),
    ensures
        first_match(s, p) == i,
{
    lemma_first_match(s, p);
    let k = first_match(s, p);
    if k < i {
        assert(p(s[k]));
    }
}

/// The index of the first `c` at or after `from`, or the length where
/// there is none.
pub fn find_char_from(chars: &Vec<char>, from: usize, c: char) -> (at: usize)
    requires
        from <= chars.len(),
    ensures
        at == from + first_match(chars@.subrange(from as int, chars.len() as int), is_char(c)),
        from <= at <= chars.len(),
{
    let mut i: usize = from;
    while i < chars.len() && chars[i] != c
        invariant
            from <= i <= chars.len(),
            forall|j: int| from <= j < i ==> chars@[j] != c,
        decreases chars.len() - i,
    {
        i += 1;
    }
    proof {
        let rest = chars@.subrange(from as int, chars.len() as int);
        assert forall|j: int| 0 <= j < i - from implies !is_char(c)(#[trigger] rest[j]) by {
            assert(rest[j] == chars@[from + j]);
        }
        lemma_first_match_is(rest, is_char(c), i - from);
    }
    i
}

/// The index of the first `c`, or the length where there is none.
pub fn find_char(chars: &Vec<char>, c: char) -> (at: usize)
    ensures
        at == first_match(chars@, is_char(c)),
        at <= chars.len(),
{
    let at = find_char_from(chars, 0, c);
    assert(chars@.subrange(0, chars.len() as int) =~= chars@);
    at
}

/// Whether `chars[from..]` begins with `prefix`.
pub fn starts_with_at(chars: &Vec<char>, from: usize, prefix: &Vec<char>) -> (yes: bool)
    requires
        from <= chars.len(),
    ensures
        yes == prefix@.is_prefix_of(chars@.subrange(from as int, chars.len() as int)),
{
    if prefix.len() > chars.len() - from {
        return false;
    }
    let ghost rest = chars@.subrange(from as int, chars.len() as int);
    let mut i: usize = 0;
    while i < prefix.len()
        invariant
            i <= prefix.len(),
            from + prefix.len() <= chars.len(),
            rest == chars@.subrange(from as int, chars.len() as int),
            forall|j: int| 0 <= j < i ==> prefix@[j] == rest[j],
        decreases prefix.len() - i,
    {
        if chars[from + i] != prefix[i] {
            assert(rest[i as int] != prefix@[i as int]);
            return false;
        }
        i += 1;
    }
    assert(rest.subrange(0, prefix.len() as int) =~= prefix@);
    true
}

/// Whether `chars` begins with `prefix`.
pub fn starts_with(chars: &Vec<char>, prefix: &Vec<char>) -> (yes: bool)
    ensures
        yes == prefix@.is_prefix_of(chars@),
{
    assert(chars@.subrange(0, chars.len() as int) =~= chars@);
    starts_with_at(chars, 0, prefix)
}

/// Whether `needle` occurs in `s` as a contiguous run of characters.
pub open spec fn contains_seq(s: Seq<char>, needle: Seq<char>) -> bool {
    exists|i: int| occurs_at(s, needle, i)
}

/// Whether `needle` stands in `s` at index `i`.
pub open spec fn occurs_at(s: Seq<char>, needle: Seq<char>, i: int) -> bool {
    0 <= i && i + needle.len() <= s.len() && s.subrange(i, i + needle.len()) == needle
}

/// Whether `needle` occurs in `chars`.
pub fn contains(chars: &Vec<char>, needle: &Vec<char>) -> (yes: bool)
    ensures
        yes == contains_seq(chars@, needle@),
{
    if needle.len() > chars.len() {
        assert forall|i: int| !occurs_at(chars@, needle@, i) by {}
        return false;
    }
    let last: usize = chars.len() - needle.len();
    let mut i: usize = 0;
    while i <= last
        invariant
            i <= last + 1,
            last == chars.len() - needle.len(),
            forall|j: int| 0 <= j < i ==> !occurs_at(chars@, needle@, j),
        decreases last + 1 - i,
    {
        if starts_with_at(chars, i, needle) {
            proof {
                let rest = chars@.subrange(i as int, chars.len() as int);
                assert(rest.subrange(0, needle.len() as int) =~= chars@.subrange(
                    i as int,
                    i + needle.len(),
                ));
                assert(occurs_at(chars@, needle@, i as int));
            }
            return true;
        }
        proof {
            let rest = chars@.subrange(i as int, chars.len() as int);
            assert(rest.subrange(0, needle.len() as int) =~= chars@.subrange(
                i as int,
                i + needle.len(),
            ));
        }
        i += 1;
    }
    assert forall|j: int| !occurs_at(chars@, needle@, j) by {}
    false
}

/// The views of a sequence of strings.
pub open spec fn strs(v: Seq<String>) -> Seq<Seq<char>> {
    Seq::new(v.len(), |i: int| v[i]@)
}

/// Pushing a string onto a vector pushes its view onto the vector's views.
pub proof fn lemma_strs_push(v: Seq<String>, s: String)
    ensures
        strs(v.push(s)) == strs(v).push(s@),
{
    assert(strs(v.push(s)) =~= strs(v).push(s@));
}

/// A copy of a vector of strings.
pub fn clone_strings(v: &Vec<String>) -> (out: Vec<String>)
    ensures
        strs(out@) == strs(v@),
{
    let mut out: Vec<String> = Vec::new();
    let mut i: usize = 0;
    while i < v.len()
        invariant
            i <= v.len(),
            strs(out@) == strs(v@.take(i as int)),
        decreases v.len() - i,
    {
        let item = v[i].clone();
        proof {
            lemma_strs_push(out@, item);
        }
        out.push(item);
        i += 1;
        assert(strs(v@.take(i as int)) =~= strs(v@.take(i - 1)).push(v@[i - 1]@));
    }
    assert(v@.take(v.len() as int) =~= v@);
    out
}

/// Whether the standard library counts `c` as white space.
pub uninterp spec fn is_whitespace(c: char) -> bool;

/// Trusted: calls `char::is_whitespace`; the result is named
/// `is_whitespace` of the argument, and nothing more is claimed of it.
#[verifier::external_body]
pub(crate) fn char_is_whitespace(c: char) -> (yes: bool)
    ensures
        yes == is_whitespace(c),
{
    c.is_whitespace()
}

/// The predicate "is no white space".
pub open spec fn is_ink() -> spec_fn(char) -> bool {
    |c: char| !is_whitespace(c)
}

/// The predicate "is white space".
pub open spec fn is_blank() -> spec_fn(char) -> bool {
    |c: char| is_whitespace(c)
}

/// `s` without the white space at its start.
pub open spec fn trim_start(s: Seq<char>) -> Seq<char> {
    s.skip(first_match(s, is_ink()))
}

/// `s` without the white space at its end.
pub open spec fn trim_end(s: Seq<char>) -> Seq<char> {
    s.take(s.len() - first_match(s.reverse(), is_ink()))
}

/// `s` without the white space at its start and at its end.
pub open spec fn trim(s: Seq<char>) -> Seq<char> {
    trim_end(trim_start(s))
}

/// The index behind the last character of `chars[from..]` that is no white
/// space, or `from` where there is none.
pub fn trim_end_from(chars: &Vec<char>, from: usize) -> (to: usize)
    requires
        from <= chars.len(),
    ensures
        from <= to <= chars.len(),
        chars@.subrange(from as int, to as int) == trim_end(chars@.skip(from as int)),
{
    let mut to: usize = chars.len();
    while to > from && char_is_whitespace(chars[to - 1])
        invariant
            from <= to <= chars.len(),
            forall|j: int| to <= j < chars.len() ==> is_whitespace(chars@[j]),
        decreases to,
    {
        to -= 1;
    }
    proof {
        let s = chars@.skip(from as int);
        let r = s.reverse();
        let n = chars.len() - to;
        assert forall|j: int| 0 <= j < n implies !is_ink()(#[trigger] r[j]) by {
            assert(r[j] == s[s.len() - 1 - j]);
            assert(s[s.len() - 1 - j] == chars@[chars.len() - 1 - j]);
        }
        if n < r.len() {
            assert(r[n] == s[s.len() - 1 - n]);
            assert(s[s.len() - 1 - n] == chars@[to - 1]);
        }
        lemma_first_match_is(r, is_ink(), n);
        assert(s.take(s.len() - n) =~= chars@.subrange(from as int, to as int));
    }
    to
}

/// The index of the first character that is no white space, or the length.
pub fn trim_start_at(chars: &Vec<char>) -> (from: usize)
    ensures
        from <= chars.len(),
        from == first_match(chars@, is_ink()),
{
    let mut from: usize = 0;
    while from < chars.len() && char_is_whitespace(chars[from])
        invariant
            from <= chars.len(),
            forall|j: int| 0 <= j < from ==> !is_ink()(#[trigger] chars@[j]),
        decreases chars.len() - from,
    {
        from += 1;
    }
    proof {
        lemma_first_match_is(chars@, is_ink(), from as int);
    }
    from
}

/// `s` without the white space at its start and at its end.
pub fn trimmed(s: &str) -> (out: String)
    ensures
        out@ == trim(s@),
{
    let chars = chars_of(s);
    let from = trim_start_at(&chars);
    let to = trim_end_from(&chars, from);
    string_of_range(&chars, from, to)
}

/// The parts in a row, with `sep` between each two.
pub open spec fn join_with(parts: Seq<Seq<char>>, sep: Seq<char>) -> Seq<char>
    decreases parts.len(),
{
    if parts.len() == 0 {
        Seq::empty()
    } else if parts.len() == 1 {
        parts[0]
    } else {
        join_with(parts.drop_last(), sep) + sep + parts.last()
    }
}

/// The parts in a row, with `sep` between each two.
pub fn join_strings(parts: &Vec<String>, sep: &str) -> (out: String)
    ensures
        out@ == join_with(strs(parts@), sep@),
{
    let mut out = String::new();
    let mut i: usize = 0;
    assert(strs(parts@).take(0) =~= Seq::empty());
    while i < parts.len()
        invariant
            i <= parts.len(),
            out@ == join_with(strs(parts@).take(i as int), sep@),
        decreases parts.len() - i,
    {
        let ghost before = strs(parts@).take(i as int);
        if i > 0 {
            out.append(sep);
        }
        out.append(parts[i].as_str());
        i += 1;
        proof {
            let now = strs(parts@).take(i as int);
            assert(now.drop_last() =~= before);
            assert(now.last() == parts@[i - 1]@);
            if i == 1 {
                assert(out@ =~= now[0]);
            }
        }
    }
    assert(strs(parts@).take(parts.len() as int) =~= strs(parts@));
    out
}

/// From `a + x + b == a + y + b` follows `x == y`.
pub proof fn lemma_middle_is_determined(a: Seq<char>, x: Seq<char>, y: Seq<char>, b: Seq<char>)
    requires
        a + x + b == a + y + b,
    ensures
        x == y,
{
    let l = a + x + b;
    let r = a + y + b;
    assert(l.len() == (a + x).len() + b.len());
    assert(r.len() == (a + y).len() + b.len());
    assert((a + x).len() == a.len() + x.len());
    assert((a + y).len() == a.len() + y.len());
    assert(x.len() == y.len());
    assert(x =~= l.subrange(a.len() as int, (a.len() + x.len()) as int));
    assert(y =~= r.subrange(a.len() as int, (a.len() + y.len()) as int));
}

/// Appends a copy of `s`.
pub fn push_str(v: &mut Vec<String>, s: &str)
    ensures
        strs(final(v)@) == strs(old(v)@).push(s@),
{
    let item = s.to_owned();
    proof {
        lemma_strs_push(v@, item);
    }
    v.push(item);
}

/// Appends copies of `a` and `b`.
pub fn push_pair(v: &mut Vec<String>, a: &str, b: &str)
    ensures
        strs(final(v)@) == strs(old(v)@).push(a@).push(b@),
{
    push_str(v, a);
    push_str(v, b);
}

/// Appends all of `more`.
pub fn push_all(v: &mut Vec<String>, more: &Vec<String>)
    ensures
        strs(final(v)@) == strs(old(v)@) + strs(more@),
{
    let mut i: usize = 0;
    assert(strs(v@) + strs(more@).take(0) =~= strs(v@));
    while i < more.len()
        invariant
            i <= more.len(),
            strs(v@) == strs(old(v)@) + strs(more@).take(i as int),
        decreases more.len() - i,
    {
        push_str(v, more[i].as_str());
        i += 1;
        assert(strs(old(v)@) + strs(more@).take(i as int) =~= (strs(old(v)@) + strs(more@).take(
            i - 1,
        )).push(more@[i - 1]@));
    }
    assert(strs(more@).take(more.len() as int) =~= strs(more@));
}

/// What stands before the first `c` in `s`: all of `s` where it holds no
/// `c`.
pub open spec fn before_first(s: Seq<char>, c: char) -> Seq<char> {
    s.take(first_match(s, is_char(c)))
}

/// What stands behind the first `c` in `s`, where it holds one.
pub open spec fn after_first(s: Seq<char>, c: char) -> Option<Seq<char>> {
    let i = first_match(s, is_char(c));
    if i < s.len() {
        Some(s.skip(i + 1))
    } else {
        None
    }
}

/// `s` split at its first `c`: what stands before it and, where `s` holds
/// a `c`, what stands behind it.
pub fn split_at_first(s: &str, c: char) -> (parts: (String, Option<String>))
    ensures
        parts.0@ == before_first(s@, c),
        parts.1 is Some <==> after_first(s@, c) is Some,
        parts.1 is Some ==> parts.1->0@ == after_first(s@, c)->0,
{
    let chars = chars_of(s);
    let at = find_char(&chars, c);
    let head = string_of_range(&chars, 0, at);
    assert(chars@.subrange(0, at as int) =~= chars@.take(at as int));
    if at < chars.len() {
        let tail = string_of_range(&chars, at + 1, chars.len());
        assert(chars@.subrange(at + 1, chars.len() as int) =~= chars@.skip(at + 1));
        (head, Some(tail))
    } else {
        (head, None)
    }
}

/// The view of an optional string.
pub open spec fn opt_str(o: Option<String>) -> Option<Seq<char>> {
    match o {
        Some(s) => Some(s@),
        None => None,
    }
}

/// The view of an optional string slice.
pub open spec fn opt_ref(o: Option<&str>) -> Option<Seq<char>> {
    match o {
        Some(s) => Some(s@),
        None => None,
    }
}

/// The character of a decimal digit.
pub open spec fn digit_char(d: nat) -> char {
    if d == 0 {
        '0'
    } else if d == 1 {
        '1'
    } else if d == 2 {
        '2'
    } else if d == 3 {
        '3'
    } else if d == 4 {
        '4'
    } else if d == 5 {
        '5'
    } else if d == 6 {
        '6'
    } else if d == 7 {
        '7'
    } else if d == 8 {
        '8'
    } else {
        '9'
    }
}

/// A number in decimal digits, without leading zeros.
pub open spec fn decimal(n: nat) -> Seq<char>
    decreases n,
{
    if n < 10 {
        seq![digit_char(n)]
    } else {
        decimal(n / 10).push(digit_char(n % 10))
    }
}

/// The character of a decimal digit.
pub fn digit_of(d: u64) -> (c: char)
    requires
        d < 10,
    ensures
        c == digit_char(d as nat),
{
    if d == 0 {
        '0'
    } else if d == 1 {
        '1'
    } else if d == 2 {
        '2'
    } else if d == 3 {
        '3'
    } else if d == 4 {
        '4'
    } else if d == 5 {
        '5'
    } else if d == 6 {
        '6'
    } else if d == 7 {
        '7'
    } else if d == 8 {
        '8'
    } else {
        '9'
    }
}

/// A number in decimal digits, without leading zeros.
pub fn decimal_string(n: u64) -> (out: String)
    ensures
        out@ == decimal(n as nat),
    decreases n,
{
    if n < 10 {
        let mut out = String::new();
        out.push(digit_of(n));
        assert(out@ =~= seq![digit_char(n as nat)]);
        out
    } else {
        let mut out = decimal_string(n / 10);
        out.push(digit_of(n % 10));
        out
    }
}

/// Whether `s` begins with `prefix`.
pub fn str_starts_with(s: &str, prefix: &str) -> (yes: bool)
    ensures
        yes == prefix@.is_prefix_of(s@),
{
    starts_with(&chars_of(s), &chars_of(prefix))
}

/// What follows `prefix` in `s`, where `s` begins with it.
pub open spec fn without_prefix(s: Seq<char>, prefix: Seq<char>) -> Option<Seq<char>> {
    if prefix.is_prefix_of(s) {
        Some(s.skip(prefix.len() as int))
    } else {
        None
    }
}

/// What follows `prefix` in `s`, where `s` begins with it.
pub fn strip_prefix(s: &str, prefix: &str) -> (rest: Option<String>)
    ensures
        opt_str(rest) == without_prefix(s@, prefix@),
{
    let chars = chars_of(s);
    let p = chars_of(prefix);
    if starts_with(&chars, &p) {
        let rest = string_of_range(&chars, p.len(), chars.len());
        assert(chars@.subrange(p.len() as int, chars.len() as int) =~= chars@.skip(p.len() as int));
        Some(rest)
    } else {
        None
    }
}

/// The parts of `s` between each two `c`, in order: one more than `s` has
/// `c`.
pub open spec fn split(s: Seq<char>, c: char) -> Seq<Seq<char>>
    decreases s.len(),
{
    let i = first_match(s, is_char(c));
    if 0 <= i < s.len() {
        seq![s.take(i)] + split(s.skip(i + 1), c)
    } else {
        seq![s]
    }
}

/// The parts of `s` between each two `c`, in order.
pub fn split_on(s: &str, c: char) -> (parts: Vec<String>)
    ensures
        strs(parts@) == split(s@, c),
{
    let chars = chars_of(s);
    let mut parts: Vec<String> = Vec::new();
    let mut start: usize = 0;
    let mut done = false;
    assert(chars@.skip(0) =~= chars@);
    assert(strs(parts@) =~= Seq::empty());
    while !done
        invariant
            start <= chars.len(),
            done ==> split(chars@, c) == strs(parts@),
            !done ==> split(chars@, c) == strs(parts@) + split(chars@.skip(start as int), c),
        decreases chars.len() - start + (if done { 0int } else { 1int }),
    {
        let at = find_char_from(&chars, start, c);
        let ghost rest = chars@.skip(start as int);
        let ghost before = strs(parts@);
        proof {
            assert(rest =~= chars@.subrange(start as int, chars.len() as int));
            assert(rest.take(at - start) =~= chars@.subrange(start as int, at as int));
            if at < chars.len() {
                assert(rest.skip(at - start + 1) =~= chars@.skip(at + 1));
            } else {
                assert(rest =~= chars@.subrange(start as int, at as int));
            }
        }
        let part = string_of_range(&chars, start, at);
        proof {
            lemma_strs_push(parts@, part);
        }
        parts.push(part);
        if at == chars.len() {
            done = true;
            assert(split(chars@, c) =~= strs(parts@));
        } else {
            start = at + 1;
            assert(split(chars@, c) =~= strs(parts@) + split(chars@.skip(start as int), c));
        }
    }
    parts
}

/// The lines of a text: the parts between line feeds, each without a
/// carriage return at its end. A text that ends in a line feed has no empty
/// last line.
pub open spec fn lines(s: Seq<char>) -> Seq<Seq<char>>
    decreases s.len(),
{
    let i = first_match(s, is_char('\n'));
    if s.len() == 0 {
        Seq::empty()
    } else if 0 <= i < s.len() {
        seq![without_return(s.take(i))] + lines(s.skip(i + 1))
    } else {
        seq![s]
    }
}

/// A line without the carriage return at its end, if it has one.
pub open spec fn without_return(line: Seq<char>) -> Seq<char> {
    if line.len() > 0 && line.last() == '\r' {
        line.drop_last()
    } else {
        line
    }
}

/// The lines of a text.
pub fn lines_of(s: &str) -> (out: Vec<String>)
    ensures
        strs(out@) == lines(s@),
{
    let chars = chars_of(s);
    let mut out: Vec<String> = Vec::new();
    let mut start: usize = 0;
    assert(chars@.skip(0) =~= chars@);
    assert(strs(out@) =~= Seq::empty());
    while start < chars.len()
        invariant
            start <= chars.len(),
            lines(chars@) == strs(out@) + lines(chars@.skip(start as int)),
        decreases chars.len() - start,
    {
        let at = find_char_from(&chars, start, '\n');
        let ghost rest = chars@.skip(start as int);
        proof {
            assert(rest =~= chars@.subrange(start as int, chars.len() as int));
            assert(rest.take(at - start) =~= chars@.subrange(start as int, at as int));
        }
        if at == chars.len() {
            let line = string_of_range(&chars, start, at);
            proof {
                lemma_strs_push(out@, line);
                assert(rest =~= chars@.subrange(start as int, at as int));
                assert(chars@.skip(at as int).len() == 0);
            }
            out.push(line);
            start = at;
            assert(lines(chars@) =~= strs(out@) + lines(chars@.skip(start as int)));
        } else {
            let end = if at > start && chars[at - 1] == '\r' {
                at - 1
            } else {
                at
            };
            let line = string_of_range(&chars, start, end);
            proof {
                lemma_strs_push(out@, line);
                let raw = chars@.subrange(start as int, at as int);
                if at > start {
                    assert(raw.last() == chars@[at - 1]);
                }
                assert(line@ =~= without_return(raw));
                assert(rest.skip(at - start + 1) =~= chars@.skip(at + 1));
            }
            out.push(line);
            start = at + 1;
            assert(lines(chars@) =~= strs(out@) + lines(chars@.skip(start as int)));
        }
    }
    assert(lines(chars@.skip(start as int)) =~= Seq::empty());
    assert(strs(out@) + Seq::<Seq<char>>::empty() =~= strs(out@));
    out
}

/// The first run of characters in `s` that holds no white space, where
/// there is one.
pub open spec fn first_word(s: Seq<char>) -> Option<Seq<char>> {
    let t = trim_start(s);
    if t.len() == 0 {
        None
    } else {
        Some(t.take(first_match(t, is_blank())))
    }
}

/// The first word of `s`, where it has one.
pub fn first_word_of(s: &str) -> (word: Option<String>)
    ensures
        opt_str(word) == first_word(s@),
{
    let chars = chars_of(s);
    let from = trim_start_at(&chars);
    if from == chars.len() {
        assert(trim_start(chars@).len() == 0);
        return None;
    }
    let mut to: usize = from;
    while to < chars.len() && !char_is_whitespace(chars[to])
        invariant
            from <= to <= chars.len(),
            forall|j: int| from <= j < to ==> !is_whitespace(chars@[j]),
        decreases chars.len() - to,
    {
        to += 1;
    }
    proof {
        let t = chars@.skip(from as int);
        assert forall|j: int| 0 <= j < to - from implies !is_blank()(#[trigger] t[j]) by {
            assert(t[j] == chars@[from + j]);
        }
        if to < chars.len() {
            assert(t[to - from] == chars@[to as int]);
        }
        lemma_first_match_is(t, is_blank(), to - from);
        assert(t.take(to - from) =~= chars@.subrange(from as int, to as int));
    }
    Some(string_of_range(&chars, from, to))
}

/// Whether `a` stands before `b` in the order of strings: character by
/// character, a prefix before what it is a prefix of.
pub open spec fn precedes(a: Seq<char>, b: Seq<char>) -> bool
    decreases a.len(),
{
    if a.len() == 0 {
        b.len() > 0
    } else if b.len() == 0 {
        false
    } else if a[0] != b[0] {
        (a[0] as u32) < (b[0] as u32)
    } else {
        precedes(a.drop_first(), b.drop_first())
    }
}

/// Whether `a` stands before `b` in the order of strings.
pub fn str_lt(a: &str, b: &str) -> (yes: bool)
    ensures
        yes == precedes(a@, b@),
{
    let x = chars_of(a);
    let y = chars_of(b);
    let mut i: usize = 0;
    assert(x@.skip(0) =~= x@);
    assert(y@.skip(0) =~= y@);
    while i < x.len() && i < y.len() && x[i] == y[i]
        invariant
            i <= x.len(),
            i <= y.len(),
            precedes(x@, y@) == precedes(x@.skip(i as int), y@.skip(i as int)),
        decreases x.len() - i,
    {
        proof {
            let u = x@.skip(i as int);
            let v = y@.skip(i as int);
            assert(u[0] == x@[i as int]);
            assert(v[0] == y@[i as int]);
            assert(u.drop_first() =~= x@.skip(i + 1));
            assert(v.drop_first() =~= y@.skip(i + 1));
        }
        i += 1;
    }
    proof {
        let u = x@.skip(i as int);
        let v = y@.skip(i as int);
        if i < x.len() {
            assert(u[0] == x@[i as int]);
        }
        if i < y.len() {
            assert(v[0] == y@[i as int]);
        }
    }
    if i == x.len() {
        i < y.len()
    } else if i == y.len() {
        false
    } else {
        (x[i] as u32) < (y[i] as u32)
    }
}

/// The order of strings is transitive.
pub proof fn lemma_precedes_transitive(a: Seq<char>, b: Seq<char>, c: Seq<char>)
    requires
        precedes(a, b),
        precedes(b, c),
    ensures
        precedes(a, c),
    decreases a.len(),
{
    if a.len() > 0 && b.len() > 0 && c.len() > 0 {
        if a[0] == b[0] && b[0] == c[0] {
            lemma_precedes_transitive(a.drop_first(), b.drop_first(), c.drop_first());
        }
    }
}

/// No string stands before itself, and of two strings at most one stands
/// before the other.
pub proof fn lemma_precedes_asymmetric(a: Seq<char>, b: Seq<char>)
    requires
        precedes(a, b),
    ensures
        !precedes(b, a),
        a != b,
    decreases a.len(),
{
    if a.len() > 0 && b.len() > 0 && a[0] == b[0] {
        lemma_precedes_asymmetric(a.drop_first(), b.drop_first());
        if a == b {
            assert(a.drop_first() == b.drop_first());
        }
    }
}

/// No string stands before an earlier one.
pub open spec fn is_ascending(s: Seq<Seq<char>>) -> bool {
    forall|i: int, j: int| 0 <= i <= j < s.len() ==> !precedes(#[trigger] s[j], #[trigger] s[i])
}

/// The strings in ascending order.
pub fn sort_strings(v: &Vec<String>) -> (out: Vec<String>)
    ensures
        is_ascending(strs(out@)),
        strs(out@).to_multiset() == strs(v@).to_multiset(),
{
    let mut out: Vec<String> = Vec::new();
    let mut i: usize = 0;
    assert(strs(v@).take(0) =~= Seq::empty());
    assert(strs(out@) =~= Seq::empty());
    while i < v.len()
        invariant
            i <= v.len(),
            is_ascending(strs(out@)),
            strs(out@).to_multiset() == strs(v@).take(i as int).to_multiset(),
        decreases v.len() - i,
    {
        let item = v[i].clone();
        let ghost before = strs(out@);
        let mut k: usize = 0;
        while k < out.len() && !str_lt(item.as_str(), out[k].as_str())
            invariant
                k <= out.len(),
                before == strs(out@),
                forall|j: int| 0 <= j < k ==> !precedes(item@, #[trigger] before[j]),
            decreases out.len() - k,
        {
            k += 1;
        }
        out.insert(k, item);
        i += 1;
        proof {
            let now = strs(out@);
            assert(now =~= before.insert(k as int, item@));
            assert forall|a: int, b: int| 0 <= a <= b < now.len() implies !precedes(
                #[trigger] now[b],
                #[trigger] now[a],
            ) by {
                if a == b {
                    if precedes(now[a], now[a]) {
                        lemma_precedes_asymmetric(now[a], now[a]);
                    }
                } else if a < k && b < k {
                    assert(now[a] == before[a] && now[b] == before[b]);
                } else if a < k && b == k {
                    assert(now[a] == before[a]);
                } else if a < k && b > k {
                    assert(now[a] == before[a] && now[b] == before[b - 1]);
                } else if a == k {
                    assert(now[b] == before[b - 1]);
                    assert(precedes(item@, before[k as int]));
                    assert(!precedes(before[b - 1], before[k as int]));
                    if precedes(before[b - 1], item@) {
                        lemma_precedes_transitive(before[b - 1], item@, before[k as int]);
                    }
                } else {
                    assert(now[a] == before[a - 1] && now[b] == before[b - 1]);
                }
            }
            vstd::seq_lib::to_multiset_insert(before, k as int, item@);
            let t = strs(v@).take(i as int);
            assert(t =~= strs(v@).take(i - 1).push(item@));
            vstd::seq_lib::to_multiset_build(strs(v@).take(i - 1), item@);
        }
    }
    assert(strs(v@).take(v.len() as int) =~= strs(v@));
    out
}

/// Whether a character is one of the ten decimal digits.
pub open spec fn is_digit(c: char) -> bool {
    '0' <= c && c <= '9'
}

/// The predicate "is no decimal digit".
pub open spec fn is_no_digit() -> spec_fn(char) -> bool {
    |c: char| !is_digit(c)
}

/// Whether a text holds decimal digits alone, and at least one.
pub open spec fn is_number(s: Seq<char>) -> bool {
    s.len() > 0 && forall|i: int| 0 <= i < s.len() ==> is_digit(#[trigger] s[i])
}

/// The number that decimal digits stand for.
pub open spec fn number(s: Seq<char>) -> nat
    decreases s.len(),
{
    if s.len() == 0 {
        0
    } else {
        number(s.drop_last()) * 10 + ((s.last() as u32 - '0' as u32) as nat)
    }
}

/// Digits that are added to a number do not make it smaller.
pub proof fn lemma_number_grows(s: Seq<char>, i: int)
    requires
        0 <= i <= s.len(),
        forall|k: int| 0 <= k < s.len() ==> is_digit(#[trigger] s[k]),
    ensures
        number(s.take(i)) <= number(s),
    decreases s.len() - i,
{
    if i < s.len() {
        lemma_number_grows(s, i + 1);
        assert(s.take(i + 1).drop_last() =~= s.take(i));
        assert(s.take(i + 1).last() == s[i]);
    } else {
        assert(s.take(i) =~= s);
    }
}

/// The number that `s` stands for, where it holds decimal digits alone, at
/// least one, and the number is at most `max`.
pub fn parse_number(s: &str, max: u64) -> (value: Option<u64>)
    ensures
        value is Some <==> is_number(s@) && number(s@) <= max,
        value is Some ==> value->0 == number(s@),
{
    let chars = chars_of(s);
    if chars.len() == 0 {
        return None;
    }
    let mut value: u64 = 0;
    let mut i: usize = 0;
    assert(chars@.take(0) =~= Seq::empty());
    while i < chars.len()
        invariant
            i <= chars.len(),
            chars@ == s@,
            forall|k: int| 0 <= k < i ==> is_digit(#[trigger] chars@[k]),
            value == number(chars@.take(i as int)),
            value <= max,
        decreases chars.len() - i,
    {
        let c = chars[i];
        if !('0' <= c && c <= '9') {
            assert(!is_digit(s@[i as int]));
            return None;
        }
        let d = (c as u32 - '0' as u32) as u64;
        proof {
            assert(chars@.take(i + 1).drop_last() =~= chars@.take(i as int));
            assert(chars@.take(i + 1).last() == c);
        }
        if d > max || value > (max - d) / 10 {
            proof {
                if is_number(s@) {
                    lemma_number_grows(s@, i + 1);
                }
            }
            return None;
        }
        value = value * 10 + d;
        i += 1;
    }
    assert(chars@.take(chars.len() as int) =~= chars@);
    Some(value)
}

} // verus!
