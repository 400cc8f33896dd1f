//! The patterns that changelog entries are written in: text with
//! placeholders in braces, such as `issue{number[/]}`. A placeholder may
//! name, in brackets, what separates its values. Two braces in a row stand
//! for a brace of the text.

use crate::errors::{Error, ErrorView};
use crate::text::{concat3, first_match, lemma_first_match_is, str_eq};
use crate::changeset::util::Utf8;
use vstd::prelude::*;
use vstd::string::StringSliceAdditionalSpecFns;
use vstd::slice::slice_subrange;
use vstd::utf8::{decode_utf8, encode_utf8, encode_utf8_decode_utf8, valid_utf8};

verus! {

/// A placeholder of an entry's pattern. Those that stand for several
/// values hold what separates the values.
#[derive(Debug, Clone, PartialEq, Eq)]
#[non_exhaustive]
pub enum Placeholder<'a> {
    /// Any identifier.
    AnyIdentifier(&'a str),
    /// The number of an issue or a pull request.
    NumberIdentifier(&'a str),
    /// A commit.
    CommitIdentifier(&'a str),
    /// An identifier that is neither.
    OtherIdentifier,
    /// The issues of an entry.
    Issues(&'a str),
    /// The commits of an entry.
    Commits(&'a str),
    /// The mark of a breaking change.
    Breaking,
    /// The description of an entry.
    Description,
    /// A date.
    Date,
    /// Anything, up to the text that follows.
    Wildcard,
}

/// The plain values of a `Placeholder`.
pub ghost enum PlaceholderView {
    AnyIdentifier(Seq<char>),
    NumberIdentifier(Seq<char>),
    CommitIdentifier(Seq<char>),
    OtherIdentifier,
    Issues(Seq<char>),
    Commits(Seq<char>),
    Breaking,
    Description,
    Date,
    Wildcard,
}

impl<'a> View for Placeholder<'a> {
    type V = PlaceholderView;

    open spec fn view(&self) -> PlaceholderView {
        match self {
            Placeholder::AnyIdentifier(sep) => PlaceholderView::AnyIdentifier(sep@),
            Placeholder::NumberIdentifier(sep) => PlaceholderView::NumberIdentifier(sep@),
            Placeholder::CommitIdentifier(sep) => PlaceholderView::CommitIdentifier(sep@),
            Placeholder::OtherIdentifier => PlaceholderView::OtherIdentifier,
            Placeholder::Issues(sep) => PlaceholderView::Issues(sep@),
            Placeholder::Commits(sep) => PlaceholderView::Commits(sep@),
            Placeholder::Breaking => PlaceholderView::Breaking,
            Placeholder::Description => PlaceholderView::Description,
            Placeholder::Date => PlaceholderView::Date,
            Placeholder::Wildcard => PlaceholderView::Wildcard,
        }
    }
}

/// The predicate "is the start or the end of a group, but not both".
pub open spec fn is_mark(start: u8, end: u8) -> spec_fn(u8) -> bool {
    |b: u8| (b == start) != (b == end)
}

/// The first group in `bytes` that begins with `start` and ends with
/// `end`, as the indices of the two: nothing where neither occurs. An end
/// before any start, a start that no end follows, a second start inside a
/// group and a group with nothing in it are errors.
pub open spec fn unescaped(bytes: Seq<u8>, start: u8, end: u8) -> Result<Option<(int, int)>, Error> {
    let a = first_match(bytes, is_mark(start, end));
    if !(0 <= a < bytes.len()) {
        Ok(None)
    } else if bytes[a] == end {
        Err(Error::EndWithoutStart)
    } else {
        let b = a + 1 + first_match(bytes.skip(a + 1), is_mark(start, end));
        if !(b < bytes.len()) {
            Err(Error::StartWithoutEnd)
        } else if bytes[b] == start {
            Err(Error::NestedStart)
        } else if b == a + 1 {
            Err(Error::EmptyPlaceholder)
        } else {
            Ok(Some((a, b)))
        }
    }
}

/// A result with indices, as numbers without bounds.
pub open spec fn indices(r: Result<Option<(usize, usize)>, Error>) -> Result<
    Option<(int, int)>,
    Error,
> {
    match r {
        Ok(Some(pair)) => Ok(Some((pair.0 as int, pair.1 as int))),
        Ok(None) => Ok(None),
        Err(e) => Err(e),
    }
}

/// The index of the first mark at or after `from`, or the length.
fn find_mark(bytes: &[u8], from: usize, start: u8, end: u8) -> (at: usize)
    requires
        from <= bytes@.len(),
    ensures
        from <= at <= bytes@.len(),
        at == from + first_match(bytes@.skip(from as int), is_mark(start, end)),
{
    let mut i: usize = from;
    while i < bytes.len() && (bytes[i] == start) == (bytes[i] == end)
        invariant
            from <= i <= bytes@.len(),
            forall|j: int| from <= j < i ==> !is_mark(start, end)(bytes@[j]),
        decreases bytes@.len() - i,
    {
        i += 1;
    }
    proof {
        let rest = bytes@.skip(from as int);
        assert forall|j: int| 0 <= j < i - from implies !is_mark(start, end)(#[trigger] rest[j]) by {
            assert(rest[j] == bytes@[from + j]);
        }
        if i < bytes@.len() {
            assert(rest[i - from] == bytes@[i as int]);
        }
        lemma_first_match_is(rest, is_mark(start, end), i - from);
    }
    i
}

/// The first group in `bytes` that begins with `start` and ends with
/// `end`. A start inside a group cannot be escaped.
pub fn extract_unescaped(bytes: &[u8], start: u8, end: u8) -> (found: Result<
    Option<(usize, usize)>,
    Error,
>)
    ensures
        indices(found) == unescaped(bytes@, start, end),
{
    assert(bytes@.skip(0) =~= bytes@);
    let a = find_mark(bytes, 0, start, end);
    if a >= bytes.len() {
        return Ok(None);
    }
    if bytes[a] == end {
        return Err(Error::EndWithoutStart);
    }
    let b = find_mark(bytes, a + 1, start, end);
    if b >= bytes.len() {
        Err(Error::StartWithoutEnd)
    } else if bytes[b] == start {
        Err(Error::NestedStart)
    } else if b == a + 1 {
        Err(Error::EmptyPlaceholder)
    } else {
        Ok(Some((a, b)))
    }
}

/// The start of the group that ends `bytes`: nothing where `bytes` has no
/// group. A group that does not end `bytes` is an error.
pub open spec fn unescaped_at_end(bytes: Seq<u8>, start: u8, end: u8) -> Result<Option<int>, Error> {
    match unescaped(bytes, start, end) {
        Ok(Some(pair)) => if pair.1 == bytes.len() - 1 {
            Ok(Some(pair.0))
        } else {
            Err(Error::GroupNotAtEnd)
        },
        Ok(None) => Ok(None),
        Err(e) => Err(e),
    }
}

/// The start of the group that ends `bytes`.
pub fn extract_unescaped_at_end(bytes: &[u8], start: u8, end: u8) -> (found: Result<
    Option<usize>,
    Error,
>)
    ensures
        match found {
            Ok(Some(i)) => unescaped_at_end(bytes@, start, end) == Ok::<Option<int>, Error>(
                Some(i as int),
            ),
            Ok(None) => unescaped_at_end(bytes@, start, end) == Ok::<Option<int>, Error>(None),
            Err(e) => unescaped_at_end(bytes@, start, end) == Err::<Option<int>, Error>(e),
        },
{
    match extract_unescaped(bytes, start, end) {
        Ok(Some((i, j))) => {
            if j == bytes.len() - 1 {
                Ok(Some(i))
            } else {
                Err(Error::GroupNotAtEnd)
            }
        },
        Ok(None) => Ok(None),
        Err(e) => Err(e),
    }
}

/// What is known while bytes are searched for a group whose start and end
/// can be escaped by doubling.
pub ghost struct Scan {
    /// The index of the start that opened the group.
    pub i: int,
    /// The byte before.
    pub previous: u8,
    /// Whether a group is open.
    pub inside: bool,
    /// Whether a single end was seen that a second may escape.
    pub outside: bool,
}

/// What a byte comes to.
pub ghost enum Step {
    /// The search goes on.
    Continue(Scan),
    /// The group is found.
    Found(int, int),
    /// The bytes are no pattern.
    Fail(Error),
}

/// What the byte `b` at the index `j` comes to. A start opens a group
/// unless it doubles the start before it; inside a group a start that
/// doubles nothing is an error. An end closes the open group; outside a
/// group it must be doubled at once.
pub open spec fn escaped_step(st: Scan, b: u8, j: int, start: u8, end: u8) -> Step {
    if b == start {
        let was_start = st.previous == start;
        if st.inside && !was_start {
            Step::Fail(Error::NestedStart)
        } else {
            let inside = !(st.inside && was_start);
            Step::Continue(
                Scan {
                    i: if inside {
                        j
                    } else {
                        0
                    },
                    previous: b,
                    inside,
                    outside: st.outside,
                },
            )
        }
    } else if b == end {
        if st.inside && j == 1 {
            Step::Fail(Error::EmptyPlaceholder)
        } else if st.inside {
            Step::Found(st.i, j)
        } else if st.outside && st.previous != end {
            Step::Fail(Error::EndWithoutStart)
        } else if st.outside {
            Step::Continue(Scan { previous: b, outside: false, ..st })
        } else {
            Step::Continue(Scan { previous: b, outside: true, ..st })
        }
    } else if st.outside {
        Step::Fail(Error::EndWithoutStart)
    } else {
        Step::Continue(Scan { previous: b, ..st })
    }
}

/// What the search comes to from the index `j` on.
pub open spec fn escaped_from(bytes: Seq<u8>, j: int, st: Scan, start: u8, end: u8) -> Result<
    Option<(int, int)>,
    Error,
>
    decreases bytes.len() - j,
{
    if j < 0 || j >= bytes.len() {
        if st.inside {
            Err(Error::StartWithoutEnd)
        } else if st.outside {
            Err(Error::EndWithoutStart)
        } else {
            Ok(None)
        }
    } else {
        match escaped_step(st, bytes[j], j, start, end) {
            Step::Continue(next) => escaped_from(bytes, j + 1, next, start, end),
            Step::Found(i, k) => Ok(Some((i, k))),
            Step::Fail(e) => Err(e),
        }
    }
}

/// The first group in `bytes` that begins with `start` and ends with
/// `end`, where a doubled start or end stands for itself.
pub open spec fn escaped(bytes: Seq<u8>, start: u8, end: u8) -> Result<Option<(int, int)>, Error> {
    escaped_from(bytes, 0, Scan { i: 0, previous: 0, inside: false, outside: false }, start, end)
}

/// The first group in `bytes` that begins with `start` and ends with
/// `end`, where a doubled start or end stands for itself.
pub fn extract_escaped(bytes: &[u8], start: u8, end: u8) -> (found: Result<
    Option<(usize, usize)>,
    Error,
>)
    ensures
        indices(found) == escaped(bytes@, start, end),
{
    let mut i: usize = 0;
    let mut previous: u8 = 0;
    let mut inside = false;
    let mut outside = false;
    let mut j: usize = 0;
    while j < bytes.len()
        invariant
            j <= bytes@.len(),
            i <= j,
            escaped(bytes@, start, end) == escaped_from(
                bytes@,
                j as int,
                Scan { i: i as int, previous, inside, outside },
                start,
                end,
            ),
        decreases bytes@.len() - j,
    {
        let b = bytes[j];
        if b == start {
            let was_start = previous == start;
            if inside && !was_start {
                return Err(Error::NestedStart);
            }
            inside = !(inside && was_start);
            if inside {
                i = j;
            } else {
                i = 0;
            }
        } else if b == end {
            if inside && j == 1 {
                return Err(Error::EmptyPlaceholder);
            } else if inside {
                return Ok(Some((i, j)));
            } else if outside && previous != end {
                return Err(Error::EndWithoutStart);
            } else if outside {
                outside = false;
            } else {
                outside = true;
            }
        } else if outside {
            return Err(Error::EndWithoutStart);
        }
        previous = b;
        j += 1;
    }
    if inside {
        Err(Error::StartWithoutEnd)
    } else if outside {
        Err(Error::EndWithoutStart)
    } else {
        Ok(None)
    }
}

/// The text that bytes are.
pub fn text_of<'a>(bytes: &'a [u8]) -> (text: Result<&'a str, Error>)
    ensures
        text is Ok <==> valid_utf8(bytes@),
        text is Ok ==> text->Ok_0@ == decode_utf8(bytes@) && text->Ok_0.spec_bytes() == bytes@,
        text is Err ==> text->Err_0 == Error::NotUtf8,
{
    match bytes.to_utf8() {
        Ok(text) => {
            proof {
                encode_utf8_decode_utf8(text@);
            }
            Ok(text)
        },
        Err(e) => Err(e),
    }
}

/// A part of a pattern.
#[derive(Debug, Clone, Copy, PartialEq, Eq)]
pub enum Piece<'a> {
    /// Text that stands for itself.
    Text(&'a str),
    /// What stands between the braces of a placeholder.
    Hole(&'a str),
}

/// The plain values of a `Piece`.
pub ghost enum PieceView {
    Text(Seq<char>),
    Hole(Seq<char>),
}

impl<'a> View for Piece<'a> {
    type V = PieceView;

    open spec fn view(&self) -> PieceView {
        match self {
            Piece::Text(t) => PieceView::Text(t@),
            Piece::Hole(t) => PieceView::Hole(t@),
        }
    }
}

/// The views of a sequence of pieces.
pub open spec fn piece_views(v: Seq<Piece>) -> Seq<PieceView> {
    Seq::new(v.len(), |i: int| v[i]@)
}

/// The pieces of a pattern, as far as the pattern can be read, and the
/// error that ends the reading, if one does: the text before the first
/// placeholder, unless there is none, the placeholder, and so on; at last
/// the text behind the last placeholder.
pub open spec fn scanned(bytes: Seq<u8>) -> (Seq<PieceView>, Option<Error>)
    decreases bytes.len(),
{
    if bytes.len() == 0 {
        (Seq::empty(), None)
    } else {
        match escaped(bytes, 0x7b, 0x7d) {
            Err(e) => (Seq::empty(), Some(e)),
            Ok(None) => if valid_utf8(bytes) {
                (seq![PieceView::Text(decode_utf8(bytes))], None)
            } else {
                (Seq::empty(), Some(Error::NotUtf8))
            },
            Ok(Some(pair)) => {
                let s = pair.0;
                let e = pair.1;
                if !(0 <= s < e < bytes.len()) {
                    (Seq::empty(), Some(Error::NotUtf8))
                } else if s != 0 && !valid_utf8(bytes.take(s)) {
                    (Seq::empty(), Some(Error::NotUtf8))
                } else {
                    let lead = if s != 0 {
                        seq![PieceView::Text(decode_utf8(bytes.take(s)))]
                    } else {
                        Seq::empty()
                    };
                    if !valid_utf8(bytes.subrange(s + 1, e)) {
                        (lead, Some(Error::NotUtf8))
                    } else {
                        let rest = scanned(bytes.skip(e + 1));
                        (
                            lead + seq![PieceView::Hole(decode_utf8(bytes.subrange(s + 1, e)))]
                                + rest.0,
                            rest.1,
                        )
                    }
                }
            },
        }
    }
}

/// A group that was found lies within the bytes, its start before its
/// end.
pub proof fn lemma_escaped_in_bounds(bytes: Seq<u8>, j: int, st: Scan, start: u8, end: u8)
    requires
        0 <= j,
        0 <= st.i <= j,
    ensures
        escaped_from(bytes, j, st, start, end) matches Ok(Some(pair)) ==> 0 <= pair.0 <= pair.1
            < bytes.len(),
    decreases bytes.len() - j,
{
    if j < bytes.len() {
        match escaped_step(st, bytes[j], j, start, end) {
            Step::Continue(next) => {
                lemma_escaped_in_bounds(bytes, j + 1, next, start, end);
            },
            _ => {},
        }
    }
}

/// The pieces of a pattern, as far as the pattern can be read, and the
/// error that ends the reading, if one does.
pub fn scan_pattern<'a>(specifier: &'a str) -> (out: (Vec<Piece<'a>>, Option<Error>))
    ensures
        piece_views(out.0@) == scanned(specifier.spec_bytes()).0,
        out.1 == scanned(specifier.spec_bytes()).1,
{
    let all = specifier.as_bytes();
    let mut result: Vec<Piece<'a>> = Vec::new();
    let mut at: usize = 0;
    let ghost whole = all@;
    assert(whole.skip(0) =~= whole);
    assert(piece_views(result@) =~= Seq::empty());
    while at < all.len()
        invariant
            at <= all@.len(),
            whole == all@,
            whole == specifier.spec_bytes(),
            scanned(whole).0 == piece_views(result@) + scanned(whole.skip(at as int)).0,
            scanned(whole).1 == scanned(whole.skip(at as int)).1,
        decreases all@.len() - at,
    {
        let bytes = slice_subrange(all, at, all.len());
        let ghost before = piece_views(result@);
        assert(bytes@ =~= whole.skip(at as int));
        proof {
            lemma_escaped_in_bounds(
                bytes@,
                0,
                Scan { i: 0, previous: 0, inside: false, outside: false },
                0x7b,
                0x7d,
            );
        }
        match extract_escaped(bytes, 0x7b, 0x7d) {
            Err(e) => {
                assert(before + Seq::<PieceView>::empty() =~= before);
                return (result, Some(e));
            },
            Ok(None) => {
                match text_of(bytes) {
                    Ok(text) => {
                        result.push(Piece::Text(text));
                        assert(piece_views(result@) =~= before + seq![PieceView::Text(text@)]);
                        return (result, None);
                    },
                    Err(e) => {
                        assert(before + Seq::<PieceView>::empty() =~= before);
                        return (result, Some(e));
                    },
                }
            },
            Ok(Some((start, end))) => {
                if start + 1 > end {
                    assert(before + Seq::<PieceView>::empty() =~= before);
                    return (result, Some(Error::NotUtf8));
                }
                if start != 0 {
                    let lead = slice_subrange(bytes, 0, start);
                    assert(lead@ =~= bytes@.take(start as int));
                    match text_of(lead) {
                        Ok(text) => {
                            result.push(Piece::Text(text));
                        },
                        Err(e) => {
                            assert(before + Seq::<PieceView>::empty() =~= before);
                            return (result, Some(e));
                        },
                    }
                }
                let ghost led = piece_views(result@);
                assert(led =~= before + (if start != 0 {
                    seq![PieceView::Text(decode_utf8(bytes@.take(start as int)))]
                } else {
                    Seq::empty()
                }));
                let inner = slice_subrange(bytes, start + 1, end);
                match text_of(inner) {
                    Ok(text) => {
                        result.push(Piece::Hole(text));
                    },
                    Err(e) => {
                        return (result, Some(e));
                    },
                }
                assert(piece_views(result@) =~= led + seq![
                    PieceView::Hole(decode_utf8(bytes@.subrange(start + 1, end as int))),
                ]);
                assert(bytes@.skip(end + 1) =~= whole.skip(at + end + 1));
                at = at + end + 1;
                assert(scanned(whole).0 =~= piece_views(result@) + scanned(
                    whole.skip(at as int),
                ).0);
            },
        }
    }
    assert(piece_views(result@) + Seq::<PieceView>::empty() =~= piece_views(result@));
    (result, None)
}

/// The pieces of a pattern. What cannot be read as a pattern is an error.
pub fn parse_pattern<'a>(specifier: &'a str) -> (made: Result<Vec<Piece<'a>>, Error>)
    ensures
        scanned(specifier.spec_bytes()).1 is None <==> made is Ok,
        made is Ok ==> piece_views(made->Ok_0@) == scanned(specifier.spec_bytes()).0,
        made is Err ==> Some(made->Err_0) == scanned(specifier.spec_bytes()).1,
{
    let (pieces, failure) = scan_pattern(specifier);
    match failure {
        Some(e) => Err(e),
        None => Ok(pieces),
    }
}

/// The separator of a placeholder that needs one: the one that it
/// names, or the usual one.
pub open spec fn with_separator(sep: Option<Seq<char>>, default_sep: Seq<char>) -> Seq<char> {
    match sep {
        Some(v) => v,
        None => default_sep,
    }
}

/// The placeholder with a separator that `make` makes.
pub open spec fn separated(
    make: spec_fn(Seq<char>) -> PlaceholderView,
    sep: Option<Seq<char>>,
    default_sep: Seq<char>,
) -> Result<PlaceholderView, ErrorView> {
    Ok(make(with_separator(sep, default_sep)))
}

/// The placeholder without a separator: it must name none.
pub open spec fn plain(made: PlaceholderView, sep: Option<Seq<char>>) -> Result<
    PlaceholderView,
    ErrorView,
> {
    if sep is None {
        Ok(made)
    } else {
        Err(ErrorView::UnexpectedSeparator)
    }
}

/// The placeholder that a name stands for, with the separator that the
/// text names, if it names one. `whole` is the text as it was written.
pub open spec fn named_placeholder(
    kind: Seq<char>,
    sep: Option<Seq<char>>,
    default_sep: Seq<char>,
    whole: Seq<char>,
) -> Result<PlaceholderView, ErrorView> {
    if kind == "id"@ {
        separated(|v: Seq<char>| PlaceholderView::AnyIdentifier(v), sep, default_sep)
    } else if kind == "number"@ {
        separated(|v: Seq<char>| PlaceholderView::NumberIdentifier(v), sep, default_sep)
    } else if kind == "commit"@ {
        separated(|v: Seq<char>| PlaceholderView::CommitIdentifier(v), sep, default_sep)
    } else if kind == "other"@ {
        plain(PlaceholderView::OtherIdentifier, sep)
    } else if kind == "issues"@ {
        separated(|v: Seq<char>| PlaceholderView::Issues(v), sep, default_sep)
    } else if kind == "commits"@ {
        separated(|v: Seq<char>| PlaceholderView::Commits(v), sep, default_sep)
    } else if kind == "breaking"@ {
        plain(PlaceholderView::Breaking, sep)
    } else if kind == "description"@ {
        plain(PlaceholderView::Description, sep)
    } else if kind == "date"@ {
        plain(PlaceholderView::Date, sep)
    } else if kind == "*"@ {
        plain(PlaceholderView::Wildcard, sep)
    } else {
        Err(ErrorView::UnsupportedPlaceholder(whole))
    }
}

/// The name and the separator that the text between the braces of a
/// placeholder holds: a group in brackets at its end is the separator, what
/// stands before it the name. Brackets with nothing in them are refused, so
/// a separator is never empty.
pub open spec fn name_and_separator(bytes: Seq<u8>) -> Result<
    (Seq<char>, Option<Seq<char>>),
    ErrorView,
> {
    match unescaped_at_end(bytes, 0x5b, 0x5d) {
        Err(e) => Err(e@),
        Ok(None) => if valid_utf8(bytes) {
            Ok((decode_utf8(bytes), None))
        } else {
            Err(ErrorView::NotUtf8)
        },
        Ok(Some(i)) => {
            let kind = bytes.take(i);
            let sep = bytes.subrange(i + 1, bytes.len() - 1);
            if 0 <= i && i + 1 <= bytes.len() - 1 && valid_utf8(kind) && valid_utf8(sep) {
                Ok((decode_utf8(kind), Some(decode_utf8(sep))))
            } else {
                Err(ErrorView::NotUtf8)
            }
        },
    }
}

/// A separator that a placeholder names is never empty.
pub proof fn lemma_separator_is_not_empty(bytes: Seq<u8>)
    ensures
        name_and_separator(bytes) matches Ok(parts) ==> (parts.1 matches Some(sep) ==> sep.len()
            > 0),
{
    if let Ok(Some(i)) = unescaped_at_end(bytes, 0x5b, 0x5d) {
        let sep = bytes.subrange(i + 1, bytes.len() - 1);
        if valid_utf8(sep) && 0 <= i && i + 1 <= bytes.len() - 1 {
            assert(sep.len() > 0);
            assert(decode_utf8(sep).len() > 0);
        }
    }
}

/// The placeholder that the text between two braces stands for.
pub open spec fn placeholder_of(s: Seq<char>, default_sep: Seq<char>) -> Result<
    PlaceholderView,
    ErrorView,
> {
    match name_and_separator(encode_utf8(s)) {
        Ok(parts) => named_placeholder(parts.0, parts.1, default_sep, s),
        Err(e) => Err(e),
    }
}

/// The name and the separator that the text between the braces of a
/// placeholder holds.
pub fn split_placeholder<'a>(s: &'a str) -> (made: Result<(&'a str, Option<&'a str>), Error>)
    ensures
        match made {
            Ok(parts) => name_and_separator(s.spec_bytes()) == Ok::<
                (Seq<char>, Option<Seq<char>>),
                ErrorView,
            >(
                (
                    parts.0@,
                    match parts.1 {
                        Some(sep) => Some(sep@),
                        None => None,
                    },
                ),
            ),
            Err(e) => name_and_separator(s.spec_bytes()) == Err::<
                (Seq<char>, Option<Seq<char>>),
                ErrorView,
            >(e@),
        },
{
    let b = s.as_bytes();
    match extract_unescaped_at_end(b, 0x5b, 0x5d) {
        Err(e) => Err(e),
        Ok(None) => {
            match text_of(b) {
                Ok(kind) => Ok((kind, None)),
                Err(e) => Err(e),
            }
        },
        Ok(Some(index)) => {
            if b.len() == 0 || index + 1 > b.len() - 1 {
                return Err(Error::NotUtf8);
            }
            let kind = slice_subrange(b, 0, index);
            let sep = slice_subrange(b, index + 1, b.len() - 1);
            assert(kind@ =~= b@.take(index as int));
            match text_of(kind) {
                Ok(kind) => match text_of(sep) {
                    Ok(sep) => Ok((kind, Some(sep))),
                    Err(e) => Err(e),
                },
                Err(e) => Err(e),
            }
        },
    }
}

/// The separator of a placeholder that needs one.
fn separator<'a>(sep: Option<&'a str>, default_sep: &'a str) -> (made: &'a str)
    ensures
        made@ == with_separator(crate::text::opt_ref(sep), default_sep@),
{
    match sep {
        Some(v) => v,
        None => default_sep,
    }
}

/// Whether a placeholder that has no use for a separator names none.
fn no_separator(sep: Option<&str>) -> (made: Result<(), Error>)
    ensures
        made is Ok <==> sep is None,
        made is Err ==> made->Err_0 == Error::UnexpectedSeparator,
{
    match sep {
        Some(_) => Err(Error::UnexpectedSeparator),
        None => Ok(()),
    }
}

impl<'a> Placeholder<'a> {
    /// The placeholder that the text between two braces stands for. The
    /// text is the placeholder's name and may end in a separator in
    /// brackets; a placeholder that needs a separator and names none has
    /// `default_sep`.
    pub fn parse(s: &'a str, default_sep: &'a str) -> (made: Result<Placeholder<'a>, Error>)
        ensures
            match made {
                Ok(p) => placeholder_of(s@, default_sep@) == Ok::<PlaceholderView, ErrorView>(p@),
                Err(e) => placeholder_of(s@, default_sep@) == Err::<PlaceholderView, ErrorView>(
                    e@,
                ),
            },
    {
        let (kind, sep) = match split_placeholder(s) {
            Ok(parts) => parts,
            Err(e) => {
                return Err(e);
            },
        };
        if str_eq(kind, "id") {
            Ok(Placeholder::AnyIdentifier(separator(sep, default_sep)))
        } else if str_eq(kind, "number") {
            Ok(Placeholder::NumberIdentifier(separator(sep, default_sep)))
        } else if str_eq(kind, "commit") {
            Ok(Placeholder::CommitIdentifier(separator(sep, default_sep)))
        } else if str_eq(kind, "other") {
            match no_separator(sep) {
                Ok(()) => Ok(Placeholder::OtherIdentifier),
                Err(e) => Err(e),
            }
        } else if str_eq(kind, "issues") {
            Ok(Placeholder::Issues(separator(sep, default_sep)))
        } else if str_eq(kind, "commits") {
            Ok(Placeholder::Commits(separator(sep, default_sep)))
        } else if str_eq(kind, "breaking") {
            match no_separator(sep) {
                Ok(()) => Ok(Placeholder::Breaking),
                Err(e) => Err(e),
            }
        } else if str_eq(kind, "description") {
            match no_separator(sep) {
                Ok(()) => Ok(Placeholder::Description),
                Err(e) => Err(e),
            }
        } else if str_eq(kind, "date") {
            match no_separator(sep) {
                Ok(()) => Ok(Placeholder::Date),
                Err(e) => Err(e),
            }
        } else if str_eq(kind, "*") {
            match no_separator(sep) {
                Ok(()) => Ok(Placeholder::Wildcard),
                Err(e) => Err(e),
            }
        } else {
            Err(Error::UnsupportedPlaceholder(s.to_owned()))
        }
    }

    /// The placeholder as it is written between braces.
    pub fn to_string(&self) -> (text: String)
        ensures
            text@ == placeholder_text(self@),
    {
        match self {
            Placeholder::AnyIdentifier(sep) => concat3("id[", sep, "]"),
            Placeholder::NumberIdentifier(sep) => concat3("number[", sep, "]"),
            Placeholder::CommitIdentifier(sep) => concat3("commit[", sep, "]"),
            Placeholder::OtherIdentifier => "other".to_owned(),
            Placeholder::Issues(sep) => concat3("issues[", sep, "]"),
            Placeholder::Commits(sep) => concat3("commits[", sep, "]"),
            Placeholder::Breaking => "breaking".to_owned(),
            Placeholder::Description => "description".to_owned(),
            Placeholder::Date => "date".to_owned(),
            Placeholder::Wildcard => "*".to_owned(),
        }
    }
}

/// A placeholder as it is written between braces: its name and, where it
/// has one, its separator in brackets.
pub open spec fn placeholder_text(p: PlaceholderView) -> Seq<char> {
    match p {
        PlaceholderView::AnyIdentifier(sep) => "id["@ + sep + "]"@,
        PlaceholderView::NumberIdentifier(sep) => "number["@ + sep + "]"@,
        PlaceholderView::CommitIdentifier(sep) => "commit["@ + sep + "]"@,
        PlaceholderView::OtherIdentifier => "other"@,
        PlaceholderView::Issues(sep) => "issues["@ + sep + "]"@,
        PlaceholderView::Commits(sep) => "commits["@ + sep + "]"@,
        PlaceholderView::Breaking => "breaking"@,
        PlaceholderView::Description => "description"@,
        PlaceholderView::Date => "date"@,
        PlaceholderView::Wildcard => "*"@,
    }
}

/// A part of a pattern: text or a placeholder.
#[derive(Debug, Clone, PartialEq, Eq)]
pub enum Item<'a> {
    /// Text that stands for itself.
    Str(&'a str),
    /// A placeholder.
    Placeholder(Placeholder<'a>),
}

/// The plain values of an `Item`.
pub ghost enum ItemView {
    Str(Seq<char>),
    Placeholder(PlaceholderView),
}

impl<'a> View for Item<'a> {
    type V = ItemView;

    open spec fn view(&self) -> ItemView {
        match self {
            Item::Str(t) => ItemView::Str(t@),
            Item::Placeholder(p) => ItemView::Placeholder(p@),
        }
    }
}

/// The views of a sequence of items.
pub open spec fn item_views(v: Seq<Item>) -> Seq<ItemView> {
    Seq::new(v.len(), |i: int| v[i]@)
}

/// An item as it is written: text as it is, a placeholder between braces.
pub open spec fn item_text(item: ItemView) -> Seq<char> {
    match item {
        ItemView::Str(t) => t,
        ItemView::Placeholder(p) => "{"@ + placeholder_text(p) + "}"@,
    }
}

/// The items as they are written, in a row.
pub open spec fn items_text(items: Seq<ItemView>) -> Seq<char>
    decreases items.len(),
{
    if items.len() == 0 {
        Seq::empty()
    } else {
        items_text(items.drop_last()) + item_text(items.last())
    }
}

impl<'a> Item<'a> {
    /// The item as it is written.
    pub fn to_string(&self) -> (text: String)
        ensures
            text@ == item_text(self@),
    {
        match self {
            Item::Str(t) => (*t).to_owned(),
            Item::Placeholder(p) => concat3("{", p.to_string().as_str(), "}"),
        }
    }
}

/// The pattern of an entry.
#[derive(Debug, Clone, PartialEq, Eq)]
pub struct Pattern<'a>(pub Vec<Item<'a>>);

/// The items that pieces stand for, as far as their placeholders are
/// known, and the error of the first placeholder that is not.
pub open spec fn items_of(pieces: Seq<PieceView>, default_sep: Seq<char>) -> (
    Seq<ItemView>,
    Option<ErrorView>,
)
    decreases pieces.len(),
{
    if pieces.len() == 0 {
        (Seq::empty(), None)
    } else {
        let before = items_of(pieces.drop_last(), default_sep);
        if before.1 is Some {
            before
        } else {
            match pieces.last() {
                PieceView::Text(t) => (before.0.push(ItemView::Str(t)), None),
                PieceView::Hole(t) => match placeholder_of(t, default_sep) {
                    Ok(p) => (before.0.push(ItemView::Placeholder(p)), None),
                    Err(e) => (before.0, Some(e)),
                },
            }
        }
    }
}

/// The pattern that a text is, or the first error met while the text is
/// read from left to right.
pub open spec fn pattern_of(specifier: Seq<char>, default_sep: Seq<char>) -> Result<
    Seq<ItemView>,
    ErrorView,
> {
    let read = scanned(encode_utf8(specifier));
    let items = items_of(read.0, default_sep);
    if items.1 is Some {
        Err(items.1->0)
    } else if read.1 is Some {
        Err(read.1->0@)
    } else {
        Ok(items.0)
    }
}

impl<'a> Pattern<'a> {
    /// The pattern without items.
    pub fn new() -> (pattern: Pattern<'a>)
        ensures
            pattern.0@.len() == 0,
    {
        Pattern(Vec::new())
    }

    /// The pattern that `specifier` is. A placeholder that needs a
    /// separator and names none has `default_sep`.
    pub fn parse(specifier: &'a str, default_sep: &'a str) -> (made: Result<Pattern<'a>, Error>)
        ensures
            match made {
                Ok(p) => pattern_of(specifier@, default_sep@) == Ok::<Seq<ItemView>, ErrorView>(
                    item_views(p.0@),
                ),
                Err(e) => pattern_of(specifier@, default_sep@) == Err::<Seq<ItemView>, ErrorView>(
                    e@,
                ),
            },
    {
        let (pieces, failure) = scan_pattern(specifier);
        let mut items: Vec<Item<'a>> = Vec::new();
        let ghost all = piece_views(pieces@);
        let mut i: usize = 0;
        assert(all.take(0) =~= Seq::empty());
        assert(item_views(items@) =~= Seq::empty());
        while i < pieces.len()
            invariant
                i <= pieces.len(),
                all == piece_views(pieces@),
                all == scanned(specifier.spec_bytes()).0,
                failure == scanned(specifier.spec_bytes()).1,
                items_of(all.take(i as int), default_sep@) == (item_views(items@), None::<ErrorView>),
            decreases pieces.len() - i,
        {
            proof {
                let now = all.take(i + 1);
                assert(now.drop_last() =~= all.take(i as int));
                assert(now.last() == pieces@[i as int]@);
            }
            let ghost before = item_views(items@);
            match pieces[i] {
                Piece::Text(t) => {
                    items.push(Item::Str(t));
                    assert(item_views(items@) =~= before.push(ItemView::Str(t@)));
                },
                Piece::Hole(t) => {
                    match Placeholder::parse(t, default_sep) {
                        Ok(p) => {
                            items.push(Item::Placeholder(p));
                            assert(item_views(items@) =~= before.push(ItemView::Placeholder(p@)));
                        },
                        Err(e) => {
                            proof {
                                let now = all.take(i + 1);
                                assert(items_of(now.drop_last(), default_sep@).1 is None);
                                assert(now.last() == PieceView::Hole(t@));
                                assert(items_of(now, default_sep@).1 == Some(e@));
                                lemma_items_stop(all, i + 1, default_sep@);
                            }
                            return Err(e);
                        },
                    }
                },
            }
            i += 1;
        }
        assert(all.take(pieces.len() as int) =~= all);
        match failure {
            Some(e) => Err(e),
            None => Ok(Pattern(items)),
        }
    }

    /// The pattern as it is written.
    pub fn to_string(&self) -> (text: String)
        ensures
            text@ == items_text(item_views(self.0@)),
    {
        let mut text = String::new();
        let ghost all = item_views(self.0@);
        let mut i: usize = 0;
        assert(all.take(0) =~= Seq::empty());
        while i < self.0.len()
            invariant
                i <= self.0.len(),
                all == item_views(self.0@),
                text@ == items_text(all.take(i as int)),
            decreases self.0.len() - i,
        {
            proof {
                let now = all.take(i + 1);
                assert(now.drop_last() =~= all.take(i as int));
                assert(now.last() == self.0@[i as int]@);
            }
            text.append(self.0[i].to_string().as_str());
            i += 1;
        }
        assert(all.take(self.0.len() as int) =~= all);
        text
    }
}

/// Once a placeholder is not known, the pieces behind it are not read.
pub proof fn lemma_items_stop(pieces: Seq<PieceView>, n: int, default_sep: Seq<char>)
    requires
        0 <= n <= pieces.len(),
        items_of(pieces.take(n), default_sep).1 is Some,
    ensures
        items_of(pieces, default_sep) == items_of(pieces.take(n), default_sep),
    decreases pieces.len() - n,
{
    if n < pieces.len() {
        assert(pieces.take(n + 1).drop_last() =~= pieces.take(n));
        lemma_items_stop(pieces, n + 1, default_sep);
    } else {
        assert(pieces.take(n) =~= pieces);
    }
}

/// Reads and writes entries in a pattern.
#[derive(Debug, Clone, PartialEq, Eq)]
pub struct Converter<'a> {
    pub pattern: Pattern<'a>,
}

impl<'a> Converter<'a> {
    /// The converter for a pattern.
    pub fn new(pattern: Pattern<'a>) -> (converter: Converter<'a>)
        ensures
            converter.pattern == pattern,
    {
        Converter { pattern }
    }
}

} // verus!
