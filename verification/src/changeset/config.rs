//! The settings of a changelog.

use crate::changeset::date;
use crate::changeset::util::SortOrder;
use crate::path::{push_component, push_path};
use crate::text::{push_str, strs};
use vstd::prelude::*;

verus! {

/// The settings of identifiers.
#[derive(Debug, Clone, PartialEq, Eq)]
pub struct Identifier {
    pub sort: Option<SortOrder>,
    pub default_changelog_separator: String,
    pub default_file_name_separator: String,
    pub commit_length: usize,
    pub number_prefix: Option<char>,
    pub number_suffix: Option<char>,
    pub commit_prefix: Option<char>,
    pub commit_suffix: Option<char>,
}

/// The settings of entries.
#[derive(Debug, Clone, PartialEq, Eq)]
pub struct Entry {
    pub sort: Option<SortOrder>,
    pub multiline: bool,
    pub prefix: String,
    pub breaking: String,
}

/// The settings of sections.
#[derive(Debug, Clone, PartialEq, Eq)]
pub struct Section {
    pub change_types: Vec<String>,
    pub sort_change_types: Option<SortOrder>,
    pub verbatim: bool,
    pub unreleased: String,
}

/// All settings, as they are written down.
#[derive(Debug, Clone, PartialEq, Eq)]
pub struct Inner<'a> {
    pub filename: String,
    pub trim_whitespace: bool,
    pub date_pattern: date::Pattern<'a>,
    pub identifier: Identifier,
    pub entry: Entry,
    pub section: Section,
}

/// The settings of a changelog.
#[derive(Debug, Clone, PartialEq, Eq)]
pub struct Config<'a> {
    pub inner: Inner<'a>,
}

impl<'a> Config<'a> {
    /// What stands before an entry.
    pub fn entry_prefix(&self) -> (out: &str)
        ensures
            out@ == self.inner.entry.prefix@,
    {
        self.inner.entry.prefix.as_str()
    }

    /// What marks a breaking change.
    pub fn breaking(&self) -> (out: &str)
        ensures
            out@ == self.inner.entry.breaking@,
    {
        self.inner.entry.breaking.as_str()
    }

    /// How the identifiers of an entry are sorted, if they are.
    pub fn sort_identifiers(&self) -> (out: Option<SortOrder>)
        ensures
            out == self.inner.identifier.sort,
    {
        self.inner.identifier.sort
    }

    /// How the entries of a section are sorted, if they are.
    pub fn sort_entries(&self) -> (out: Option<SortOrder>)
        ensures
            out == self.inner.entry.sort,
    {
        self.inner.entry.sort
    }

    /// How the kinds of change are sorted, if they are.
    pub fn sort_change_types(&self) -> (out: Option<SortOrder>)
        ensures
            out == self.inner.section.sort_change_types,
    {
        self.inner.section.sort_change_types
    }

    /// Whether earlier releases are kept as they were written.
    pub fn verbatim(&self) -> (out: bool)
        ensures
            out == self.inner.section.verbatim,
    {
        self.inner.section.verbatim
    }

    /// What stands for the version that is not yet released.
    pub fn unreleased(&self) -> (out: &str)
        ensures
            out@ == self.inner.section.unreleased@,
    {
        self.inner.section.unreleased.as_str()
    }

    /// Whether white space around what is read is dropped.
    pub fn trim_whitespace(&self) -> (out: bool)
        ensures
            out == self.inner.trim_whitespace,
    {
        self.inner.trim_whitespace
    }

    /// The pattern that dates are written in.
    pub fn date_pattern(&self) -> (out: &date::Pattern<'a>)
        ensures
            *out == self.inner.date_pattern,
    {
        &self.inner.date_pattern
    }

    /// How many digits of a commit's hash are written.
    pub fn commit_length(&self) -> (out: usize)
        ensures
            out == self.inner.identifier.commit_length,
    {
        self.inner.identifier.commit_length
    }

    /// The name of the changelog's file.
    pub fn filename(&self) -> (out: &str)
        ensures
            out@ == self.inner.filename@,
    {
        self.inner.filename.as_str()
    }

    /// Whether an entry may have several lines.
    pub fn multiline(&self) -> (out: bool)
        ensures
            out == self.inner.entry.multiline,
    {
        self.inner.entry.multiline
    }

    /// The kinds of change, in the order in which they are written.
    pub fn change_types(&self) -> (out: &Vec<String>)
        ensures
            *out == self.inner.section.change_types,
    {
        &self.inner.section.change_types
    }

    /// What separates identifiers in the changelog.
    pub fn default_changelog_separator(&self) -> (out: &str)
        ensures
            out@ == self.inner.identifier.default_changelog_separator@,
    {
        self.inner.identifier.default_changelog_separator.as_str()
    }

    /// What separates identifiers in the names of files.
    pub fn default_file_name_separator(&self) -> (out: &str)
        ensures
            out@ == self.inner.identifier.default_file_name_separator@,
    {
        self.inner.identifier.default_file_name_separator.as_str()
    }

    /// Whether the settings can be used: a commit's hash has at most
    /// forty digits, and neither the prefix of entries, nor the file's name,
    /// nor any kind of change is empty.
    pub open spec fn is_valid(&self) -> bool {
        &&& self.inner.identifier.commit_length <= 40
        &&& self.inner.entry.prefix@.len() > 0
        &&& self.inner.filename@.len() > 0
        &&& forall|i: int|
            0 <= i < self.inner.section.change_types@.len() ==> (
            #[trigger] self.inner.section.change_types@[i])@.len() > 0
    }

    /// Whether the settings can be used.
    pub fn validate(&self) -> (ok: bool)
        ensures
            ok == self.is_valid(),
    {
        if self.commit_length() > 40 || self.entry_prefix().is_empty() || self.filename().is_empty() {
            return false;
        }
        let kinds = self.change_types();
        let mut i: usize = 0;
        while i < kinds.len()
            invariant
                i <= kinds@.len(),
                *kinds == self.inner.section.change_types,
                forall|j: int| 0 <= j < i ==> (#[trigger] kinds@[j])@.len() > 0,
            decreases kinds@.len() - i,
        {
            if kinds[i].as_str().is_empty() {
                return false;
            }
            i += 1;
        }
        true
    }
}

/// Where the settings are kept: where `given` says, else in the file
/// `changesets.toml` of the package.
pub fn config_path(given: Option<&str>, package_dir: &str) -> (path: String)
    ensures
        path@ == (match given {
            Some(p) => p@,
            None => push_component(package_dir@, "changesets.toml"@),
        }),
{
    match given {
        Some(p) => p.to_owned(),
        None => push_path(package_dir, "changesets.toml"),
    }
}

/// The usual name of the changelog's file.
pub fn filename() -> (out: &'static str)
    ensures
        out@ == "CHANGELOG.md"@,
{
    "CHANGELOG.md"
}

/// Whether white space is dropped, usually.
pub fn trim_whitespace() -> (out: bool)
    ensures
        out,
{
    true
}

/// The usual pattern of dates: year, month and day, with `-` between.
pub open spec fn usual_date_pattern() -> Seq<date::ItemView> {
    seq![
        date::ItemView::Placeholder(date::Placeholder::Year),
        date::ItemView::Str("-"@),
        date::ItemView::Placeholder(date::Placeholder::Month),
        date::ItemView::Str("-"@),
        date::ItemView::Placeholder(date::Placeholder::Day),
    ]
}

/// The usual pattern of dates.
pub fn date_pattern() -> (out: date::Pattern<'static>)
    ensures
        date::item_views(out.0@) == usual_date_pattern(),
{
    let mut items: Vec<date::Item<'static>> = Vec::new();
    items.push(date::Item::Placeholder(date::Placeholder::Year));
    items.push(date::Item::Str("-"));
    items.push(date::Item::Placeholder(date::Placeholder::Month));
    items.push(date::Item::Str("-"));
    items.push(date::Item::Placeholder(date::Placeholder::Day));
    assert(date::item_views(items@) =~= usual_date_pattern());
    date::Pattern(items)
}

/// What usually separates identifiers in the changelog.
pub fn default_changelog_separator() -> (out: &'static str)
    ensures
        out@ == ","@,
{
    ","
}

/// What usually separates identifiers in the names of files.
pub fn default_file_name_separator() -> (out: &'static str)
    ensures
        out@ == "-"@,
{
    "-"
}

/// How identifiers are sorted, usually.
pub fn sort_identifiers() -> (out: Option<SortOrder>)
    ensures
        out == Some(SortOrder::Ascending),
{
    Some(SortOrder::Ascending)
}

/// How many digits of a commit's hash are written, usually.
pub fn commit_length() -> (out: usize)
    ensures
        out == 9,
{
    9
}

/// What usually stands before a number.
pub fn number_prefix() -> (out: Option<char>)
    ensures
        out == Some('#'),
{
    Some('#')
}

/// What usually stands behind a number.
pub fn number_suffix() -> (out: Option<char>)
    ensures
        out is None,
{
    None
}

/// What usually stands before a commit.
pub fn commit_prefix() -> (out: Option<char>)
    ensures
        out is None,
{
    None
}

/// What usually stands behind a commit.
pub fn commit_suffix() -> (out: Option<char>)
    ensures
        out is None,
{
    None
}

/// How entries are sorted, usually.
pub fn sort_entries() -> (out: Option<SortOrder>)
    ensures
        out == Some(SortOrder::Descending),
{
    Some(SortOrder::Descending)
}

/// Whether an entry may have several lines, usually.
pub fn multiline() -> (out: bool)
    ensures
        out,
{
    true
}

/// What usually stands before an entry.
pub fn entry_prefix() -> (out: &'static str)
    ensures
        out@ == "-"@,
{
    "-"
}

/// What usually marks a breaking change.
pub fn breaking() -> (out: &'static str)
    ensures
        out@ == "Breaking:"@,
{
    "Breaking:"
}

/// The usual kinds of change.
pub open spec fn usual_change_types() -> Seq<Seq<char>> {
    seq![
        "Added"@,
        "Changed"@,
        "Removed"@,
        "Fixed"@,
        "Internal"@,
        "Deprecated"@,
        "Security"@,
    ]
}

/// The usual kinds of change.
pub fn change_types() -> (out: Vec<String>)
    ensures
        strs(out@) == usual_change_types(),
{
    let mut out: Vec<String> = Vec::new();
    push_str(&mut out, "Added");
    push_str(&mut out, "Changed");
    push_str(&mut out, "Removed");
    push_str(&mut out, "Fixed");
    push_str(&mut out, "Internal");
    push_str(&mut out, "Deprecated");
    push_str(&mut out, "Security");
    assert(strs(out@) =~= usual_change_types());
    out
}

/// How the kinds of change are sorted, usually.
pub fn sort_change_types() -> (out: Option<SortOrder>)
    ensures
        out == Some(SortOrder::Ascending),
{
    Some(SortOrder::Ascending)
}

/// Whether earlier releases are kept as they were written, usually.
pub fn verbatim() -> (out: bool)
    ensures
        out,
{
    true
}

/// What usually stands for the version that is not yet released.
pub fn unreleased() -> (out: &'static str)
    ensures
        out@ == "Unreleased"@,
{
    "Unreleased"
}

/// The usual settings of identifiers.
pub fn identifier() -> (out: Identifier)
    ensures
        out.sort == Some(SortOrder::Ascending),
        out.default_changelog_separator@ == ","@,
        out.default_file_name_separator@ == "-"@,
        out.commit_length == 9,
        out.number_prefix == Some('#'),
        out.number_suffix is None,
        out.commit_prefix is None,
        out.commit_suffix is None,
{
    Identifier {
        default_changelog_separator: default_changelog_separator().to_owned(),
        default_file_name_separator: default_file_name_separator().to_owned(),
        sort: sort_identifiers(),
        commit_length: commit_length(),
        number_prefix: number_prefix(),
        number_suffix: number_suffix(),
        commit_prefix: commit_prefix(),
        commit_suffix: commit_suffix(),
    }
}

/// The usual settings of entries.
pub fn entry() -> (out: Entry)
    ensures
        out.sort == Some(SortOrder::Descending),
        out.prefix@ == "-"@,
        out.breaking@ == "Breaking:"@,
        out.multiline,
{
    Entry {
        sort: sort_entries(),
        prefix: entry_prefix().to_owned(),
        breaking: breaking().to_owned(),
        multiline: multiline(),
    }
}

/// The usual settings of sections.
pub fn section() -> (out: Section)
    ensures
        strs(out.change_types@) == usual_change_types(),
        out.sort_change_types == Some(SortOrder::Ascending),
        out.verbatim,
        out.unreleased@ == "Unreleased"@,
{
    Section {
        change_types: change_types(),
        sort_change_types: sort_change_types(),
        verbatim: verbatim(),
        unreleased: unreleased().to_owned(),
    }
}

/// The usual settings.
pub fn default_config() -> (config: Config<'static>)
    ensures
        config.inner.filename@ == "CHANGELOG.md"@,
        config.inner.trim_whitespace,
        date::item_views(config.inner.date_pattern.0@) == usual_date_pattern(),
        config.inner.identifier.sort == Some(SortOrder::Ascending),
        config.inner.identifier.default_changelog_separator@ == ","@,
        config.inner.identifier.default_file_name_separator@ == "-"@,
        config.inner.identifier.commit_length == 9,
        config.inner.identifier.number_prefix == Some('#'),
        config.inner.identifier.number_suffix is None,
        config.inner.identifier.commit_prefix is None,
        config.inner.identifier.commit_suffix is None,
        config.inner.entry.sort == Some(SortOrder::Descending),
        config.inner.entry.prefix@ == "-"@,
        config.inner.entry.breaking@ == "Breaking:"@,
        config.inner.entry.multiline,
        strs(config.inner.section.change_types@) == usual_change_types(),
        config.inner.section.sort_change_types == Some(SortOrder::Ascending),
        config.inner.section.verbatim,
        config.inner.section.unreleased@ == "Unreleased"@,
{
    Config {
        inner: Inner {
            filename: filename().to_owned(),
            trim_whitespace: trim_whitespace(),
            date_pattern: date_pattern(),
            identifier: identifier(),
            entry: entry(),
            section: section(),
        },
    }
}

} // verus!
