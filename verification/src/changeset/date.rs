//! Dates, and the patterns that they are written in, such as
//! `{year}-{month}-{day}`.

use crate::changeset::pattern::{
    piece_views, scan_pattern, scanned, Piece, PieceView,
};
use crate::changeset::stream::{consume_if_str, take_while};
use crate::errors::{Error, ErrorView};
use crate::text::{
    decimal, decimal_string, first_match, is_digit, is_no_digit, is_number, lemma_first_match_is,
    number, parse_number, str_eq,
};
use vstd::prelude::*;
use vstd::string::StringSliceAdditionalSpecFns;
use vstd::utf8::encode_utf8;

verus! {

/// A day of the calendar.
#[derive(Debug, Default, Clone, Copy, PartialEq, Eq, Hash, Structural)]
pub struct Date {
    pub year: i32,
    pub month: u32,
    pub day: u32,
}

/// A placeholder of a date's pattern.
#[derive(Debug, Clone, Copy, PartialEq, Eq, Structural)]
#[non_exhaustive]
pub enum Placeholder {
    Day,
    Month,
    Year,
}

/// The placeholder that a name stands for.
pub open spec fn placeholder_of(name: Seq<char>) -> Option<Placeholder> {
    if name == "day"@ {
        Some(Placeholder::Day)
    } else if name == "month"@ {
        Some(Placeholder::Month)
    } else if name == "year"@ {
        Some(Placeholder::Year)
    } else {
        None
    }
}

impl Placeholder {
    /// The placeholder that `s` names. Any other name is an error that
    /// keeps the name.
    pub fn parse(s: &str) -> (made: Result<Placeholder, Error>)
        ensures
            placeholder_of(s@) is Some <==> made is Ok,
            made is Ok ==> made->Ok_0 == placeholder_of(s@)->0,
            made is Err ==> made->Err_0@ == ErrorView::UnsupportedPlaceholder(s@),
    {
        if str_eq(s, "day") {
            Ok(Placeholder::Day)
        } else if str_eq(s, "month") {
            Ok(Placeholder::Month)
        } else if str_eq(s, "year") {
            Ok(Placeholder::Year)
        } else {
            Err(Error::UnsupportedPlaceholder(s.to_owned()))
        }
    }

    /// The placeholder's name.
    pub open spec fn name(self) -> Seq<char> {
        match self {
            Placeholder::Day => "day"@,
            Placeholder::Month => "month"@,
            Placeholder::Year => "year"@,
        }
    }

    /// The placeholder's name.
    pub fn to_string(&self) -> (text: String)
        ensures
            text@ == self.name(),
    {
        match self {
            Placeholder::Day => "day".to_owned(),
            Placeholder::Month => "month".to_owned(),
            Placeholder::Year => "year".to_owned(),
        }
    }
}

/// A part of a date's pattern: text or a placeholder.
#[derive(Debug, Clone, Copy, PartialEq, Eq)]
pub enum Item<'a> {
    /// Text that stands for itself.
    Str(&'a str),
    /// A placeholder.
    Placeholder(Placeholder),
}

/// The plain values of an `Item`.
pub ghost enum ItemView {
    Str(Seq<char>),
    Placeholder(Placeholder),
}

impl<'a> View for Item<'a> {
    type V = ItemView;

    open spec fn view(&self) -> ItemView {
        match self {
            Item::Str(t) => ItemView::Str(t@),
            Item::Placeholder(p) => ItemView::Placeholder(*p),
        }
    }
}

/// The views of a sequence of items.
pub open spec fn item_views(v: Seq<Item>) -> Seq<ItemView> {
    Seq::new(v.len(), |i: int| v[i]@)
}

/// An item as it is written: text as it is, a placeholder between braces.
pub open spec fn item_text(item: ItemView) -> Seq<char> {
    match item {
        ItemView::Str(t) => t,
        ItemView::Placeholder(p) => "{"@ + p.name() + "}"@,
    }
}

/// The items as they are written, in a row.
pub open spec fn items_text(items: Seq<ItemView>) -> Seq<char>
    decreases items.len(),
{
    if items.len() == 0 {
        Seq::empty()
    } else {
        items_text(items.drop_last()) + item_text(items.last())
    }
}

impl<'a> Item<'a> {
    /// The item as it is written.
    pub fn to_string(&self) -> (text: String)
        ensures
            text@ == item_text(self@),
    {
        match self {
            Item::Str(t) => (*t).to_owned(),
            Item::Placeholder(p) => crate::text::concat3("{", p.to_string().as_str(), "}"),
        }
    }
}

/// The pattern of a date.
#[derive(Debug, Clone, PartialEq, Eq)]
pub struct Pattern<'a>(pub Vec<Item<'a>>);

/// The items that pieces stand for, as far as their placeholders are
/// known, and the error of the first placeholder that is not.
pub open spec fn items_of(pieces: Seq<PieceView>) -> (Seq<ItemView>, Option<ErrorView>)
    decreases pieces.len(),
{
    if pieces.len() == 0 {
        (Seq::empty(), None)
    } else {
        let before = items_of(pieces.drop_last());
        if before.1 is Some {
            before
        } else {
            match pieces.last() {
                PieceView::Text(t) => (before.0.push(ItemView::Str(t)), None),
                PieceView::Hole(t) => match placeholder_of(t) {
                    Some(p) => (before.0.push(ItemView::Placeholder(p)), None),
                    None => (before.0, Some(ErrorView::UnsupportedPlaceholder(t))),
                },
            }
        }
    }
}

/// Once a placeholder is not known, the pieces behind it are not read.
pub proof fn lemma_items_stop(pieces: Seq<PieceView>, n: int)
    requires
        0 <= n <= pieces.len(),
        items_of(pieces.take(n)).1 is Some,
    ensures
        items_of(pieces) == items_of(pieces.take(n)),
    decreases pieces.len() - n,
{
    if n < pieces.len() {
        assert(pieces.take(n + 1).drop_last() =~= pieces.take(n));
        lemma_items_stop(pieces, n + 1);
    } else {
        assert(pieces.take(n) =~= pieces);
    }
}

/// The pattern that a text is, or the first error met while the text is
/// read from left to right.
pub open spec fn pattern_of(specifier: Seq<char>) -> Result<Seq<ItemView>, ErrorView> {
    let read = scanned(encode_utf8(specifier));
    let items = items_of(read.0);
    if items.1 is Some {
        Err(items.1->0)
    } else if read.1 is Some {
        Err(read.1->0@)
    } else {
        Ok(items.0)
    }
}

impl<'a> Pattern<'a> {
    /// The pattern without items.
    pub fn new() -> (pattern: Pattern<'a>)
        ensures
            pattern.0@.len() == 0,
    {
        Pattern(Vec::new())
    }

    /// The pattern that `specifier` is.
    pub fn parse(specifier: &'a str) -> (made: Result<Pattern<'a>, Error>)
        ensures
            match made {
                Ok(p) => pattern_of(specifier@) == Ok::<Seq<ItemView>, ErrorView>(
                    item_views(p.0@),
                ),
                Err(e) => pattern_of(specifier@) == Err::<Seq<ItemView>, ErrorView>(e@),
            },
    {
        let (pieces, failure) = scan_pattern(specifier);
        let mut items: Vec<Item<'a>> = Vec::new();
        let ghost all = piece_views(pieces@);
        let mut i: usize = 0;
        assert(all.take(0) =~= Seq::empty());
        assert(item_views(items@) =~= Seq::empty());
        while i < pieces.len()
            invariant
                i <= pieces.len(),
                all == piece_views(pieces@),
                all == scanned(specifier.spec_bytes()).0,
                failure == scanned(specifier.spec_bytes()).1,
                items_of(all.take(i as int)) == (item_views(items@), None::<ErrorView>),
            decreases pieces.len() - i,
        {
            proof {
                let now = all.take(i + 1);
                assert(now.drop_last() =~= all.take(i as int));
                assert(now.last() == pieces@[i as int]@);
            }
            let ghost before = item_views(items@);
            match pieces[i] {
                Piece::Text(t) => {
                    items.push(Item::Str(t));
                    assert(item_views(items@) =~= before.push(ItemView::Str(t@)));
                },
                Piece::Hole(t) => {
                    match Placeholder::parse(t) {
                        Ok(p) => {
                            items.push(Item::Placeholder(p));
                            assert(item_views(items@) =~= before.push(ItemView::Placeholder(p)));
                        },
                        Err(e) => {
                            proof {
                                let now = all.take(i + 1);
                                assert(items_of(now.drop_last()).1 is None);
                                assert(now.last() == PieceView::Hole(t@));
                                assert(items_of(now).1 == Some(e@));
                                lemma_items_stop(all, i + 1);
                            }
                            return Err(e);
                        },
                    }
                },
            }
            i += 1;
        }
        assert(all.take(pieces.len() as int) =~= all);
        match failure {
            Some(e) => Err(e),
            None => Ok(Pattern(items)),
        }
    }

    /// The pattern as it is written.
    pub fn to_string(&self) -> (text: String)
        ensures
            text@ == items_text(item_views(self.0@)),
    {
        let mut text = String::new();
        let ghost all = item_views(self.0@);
        let mut i: usize = 0;
        assert(all.take(0) =~= Seq::empty());
        while i < self.0.len()
            invariant
                i <= self.0.len(),
                all == item_views(self.0@),
                text@ == items_text(all.take(i as int)),
            decreases self.0.len() - i,
        {
            proof {
                let now = all.take(i + 1);
                assert(now.drop_last() =~= all.take(i as int));
                assert(now.last() == self.0@[i as int]@);
            }
            text.append(self.0[i].to_string().as_str());
            i += 1;
        }
        assert(all.take(self.0.len() as int) =~= all);
        text
    }
}

/// A year as it is written: in decimal digits, behind a `-` where it lies
/// before the year 0.
pub open spec fn year_text(year: i32) -> Seq<char> {
    if year < 0 {
        "-"@ + decimal((-year) as nat)
    } else {
        decimal(year as nat)
    }
}

/// What an item gives for a date: its text, or the number that its
/// placeholder stands for.
pub open spec fn item_of_date(item: ItemView, date: Date) -> Seq<char> {
    match item {
        ItemView::Str(t) => t,
        ItemView::Placeholder(Placeholder::Day) => decimal(date.day as nat),
        ItemView::Placeholder(Placeholder::Month) => decimal(date.month as nat),
        ItemView::Placeholder(Placeholder::Year) => year_text(date.year),
    }
}

/// A date as a pattern writes it.
pub open spec fn written(items: Seq<ItemView>, date: Date) -> Seq<char>
    decreases items.len(),
{
    if items.len() == 0 {
        Seq::empty()
    } else {
        written(items.drop_last(), date) + item_of_date(items.last(), date)
    }
}

/// The date with the number that a placeholder stands for.
pub open spec fn with_field(date: Date, p: Placeholder, n: nat) -> Date {
    match p {
        Placeholder::Day => Date { day: n as u32, ..date },
        Placeholder::Month => Date { month: n as u32, ..date },
        Placeholder::Year => Date { year: n as i32, ..date },
    }
}

/// The largest number that a placeholder can stand for.
pub open spec fn field_max(p: Placeholder) -> nat {
    match p {
        Placeholder::Day => u32::MAX as nat,
        Placeholder::Month => u32::MAX as nat,
        Placeholder::Year => i32::MAX as nat,
    }
}

/// The digits at the start of a text.
pub open spec fn leading_digits(s: Seq<char>) -> Seq<char> {
    s.take(first_match(s, is_no_digit()))
}

/// What reading a text in a pattern comes to, from the date read so far:
/// text of the pattern must stand in the text that is read; in the place
/// of a placeholder the digits that stand there are taken as its number. The
/// date is handed back with what is left of the text.
pub open spec fn read(items: Seq<ItemView>, date: Date, s: Seq<char>) -> Result<
    (Date, Seq<char>),
    ErrorView,
>
    decreases items.len(),
{
    if items.len() == 0 {
        Ok((date, s))
    } else {
        match items.first() {
            ItemView::Str(t) => if t.is_prefix_of(s) {
                read(items.drop_first(), date, s.skip(t.len() as int))
            } else {
                Err(ErrorView::NoPrefix)
            },
            ItemView::Placeholder(p) => {
                let found = leading_digits(s);
                if is_number(found) && number(found) <= field_max(p) {
                    read(
                        items.drop_first(),
                        with_field(date, p, number(found)),
                        s.skip(found.len() as int),
                    )
                } else {
                    Err(ErrorView::InvalidNumber(found))
                }
            },
        }
    }
}

/// The date before anything is read.
pub open spec fn no_date() -> Date {
    Date { year: 0, month: 0, day: 0 }
}

/// Reads and writes dates in a pattern.
#[derive(Debug, Clone, PartialEq, Eq)]
pub struct Converter<'a> {
    pub pattern: Pattern<'a>,
}

impl<'a> Converter<'a> {
    /// The converter for a pattern.
    pub fn new(pattern: Pattern<'a>) -> (converter: Converter<'a>)
        ensures
            converter.pattern == pattern,
    {
        Converter { pattern }
    }

    /// The date as the pattern writes it.
    pub fn to_string(&self, date: &Date) -> (text: Result<String, Error>)
        ensures
            text is Ok,
            text->Ok_0@ == written(item_views(self.pattern.0@), *date),
    {
        Ok(self.text_of(date))
    }

    /// The text that the pattern writes for the date.
    fn text_of(&self, date: &Date) -> (text: String)
        ensures
            text@ == written(item_views(self.pattern.0@), *date),
    {
        let mut text = String::new();
        let ghost all = item_views(self.pattern.0@);
        let mut i: usize = 0;
        assert(all.take(0) =~= Seq::empty());
        while i < self.pattern.0.len()
            invariant
                i <= self.pattern.0.len(),
                all == item_views(self.pattern.0@),
                text@ == written(all.take(i as int), *date),
            decreases self.pattern.0.len() - i,
        {
            proof {
                let now = all.take(i + 1);
                assert(now.drop_last() =~= all.take(i as int));
                assert(now.last() == self.pattern.0@[i as int]@);
            }
            match self.pattern.0[i] {
                Item::Str(t) => {
                    text.append(t);
                },
                Item::Placeholder(Placeholder::Day) => {
                    text.append(decimal_string(date.day as u64).as_str());
                },
                Item::Placeholder(Placeholder::Month) => {
                    text.append(decimal_string(date.month as u64).as_str());
                },
                Item::Placeholder(Placeholder::Year) => {
                    if date.year < 0 {
                        text.append("-");
                        text.append(decimal_string((-(date.year as i64)) as u64).as_str());
                    } else {
                        text.append(decimal_string(date.year as u64).as_str());
                    }
                },
            }
            i += 1;
        }
        assert(all.take(self.pattern.0.len() as int) =~= all);
        text
    }

    /// Appends the date, as the pattern writes it, to `sink`.
    pub fn write(&self, sink: &mut Vec<u8>, date: &Date) -> (done: Result<(), Error>)
        ensures
            done is Ok,
            final(sink)@ == old(sink)@ + encode_utf8(written(item_views(self.pattern.0@), *date)),
    {
        let text = self.text_of(date);
        let bytes = text.as_str().as_bytes();
        let mut i: usize = 0;
        assert(old(sink)@ + bytes@.take(0) =~= old(sink)@);
        while i < bytes.len()
            invariant
                i <= bytes@.len(),
                sink@ == old(sink)@ + bytes@.take(i as int),
            decreases bytes@.len() - i,
        {
            sink.push(bytes[i]);
            i += 1;
            assert(old(sink)@ + bytes@.take(i as int) =~= (old(sink)@ + bytes@.take(i - 1)).push(
                bytes@[i - 1],
            ));
        }
        assert(bytes@.take(bytes@.len() as int) =~= bytes@);
        Ok(())
    }

    /// Reads a date in the pattern from the start of `s`, and hands it
    /// back with what is left of `s`. Text of the pattern must stand in
    /// `s`; in the place of a placeholder the digits that stand there are
    /// taken as its number, and there must be some.
    pub fn parse(&self, s: &str) -> (made: Result<(Date, String), Error>)
        ensures
            match made {
                Ok(found) => read(item_views(self.pattern.0@), no_date(), s@) == Ok::<
                    (Date, Seq<char>),
                    ErrorView,
                >((found.0, found.1@)),
                Err(e) => read(item_views(self.pattern.0@), no_date(), s@) == Err::<
                    (Date, Seq<char>),
                    ErrorView,
                >(e@),
            },
    {
        let mut date = Date { year: 0, month: 0, day: 0 };
        let mut rest = s.to_owned();
        let ghost all = item_views(self.pattern.0@);
        let mut i: usize = 0;
        assert(all.skip(0) =~= all);
        while i < self.pattern.0.len()
            invariant
                i <= self.pattern.0.len(),
                all == item_views(self.pattern.0@),
                read(all, no_date(), s@) == read(all.skip(i as int), date, rest@),
            decreases self.pattern.0.len() - i,
        {
            proof {
                let now = all.skip(i as int);
                assert(now.first() == self.pattern.0@[i as int]@);
                assert(now.drop_first() =~= all.skip(i + 1));
            }
            match self.pattern.0[i] {
                Item::Str(t) => {
                    match consume_if_str(rest.as_str(), t) {
                        Ok(left) => {
                            rest = left;
                        },
                        Err(e) => {
                            return Err(e);
                        },
                    }
                },
                Item::Placeholder(p) => {
                    let is_digit_here = |c: &char| -> (yes: bool)
                        ensures
                            yes == is_digit(*c),
                        { '0' <= *c && *c <= '9' };
                    let (found, left) = take_while(rest.as_str(), is_digit_here);
                    proof {
                        let text = rest@;
                        let k = found@.len() as int;
                        assert(found@.len() + left@.len() == text.len());
                        assert forall|j: int| 0 <= j < k implies !is_no_digit()(
                            #[trigger] text[j],
                        ) by {
                            assert(is_digit_here.ensures((&text[j],), true));
                        }
                        if k < text.len() {
                            assert(is_digit_here.ensures((&text[k],), false));
                        }
                        lemma_first_match_is(text, is_no_digit(), k);
                        assert(found@ =~= text.take(k));
                        assert(left@ =~= text.skip(k));
                    }
                    match p {
                        Placeholder::Day => {
                            match parse_number(found.as_str(), 0xffff_ffff) {
                                Some(n) => {
                                    date.day = n as u32;
                                },
                                None => {
                                    return Err(Error::InvalidNumber(found));
                                },
                            }
                        },
                        Placeholder::Month => {
                            match parse_number(found.as_str(), 0xffff_ffff) {
                                Some(n) => {
                                    date.month = n as u32;
                                },
                                None => {
                                    return Err(Error::InvalidNumber(found));
                                },
                            }
                        },
                        Placeholder::Year => {
                            match parse_number(found.as_str(), 0x7fff_ffff) {
                                Some(n) => {
                                    date.year = n as i32;
                                },
                                None => {
                                    return Err(Error::InvalidNumber(found));
                                },
                            }
                        },
                    }
                    rest = left;
                },
            }
            i += 1;
        }
        assert(all.skip(self.pattern.0.len() as int) =~= Seq::<ItemView>::empty());
        Ok((date, rest))
    }
}

} // verus!
