//! A changelog and its parts.

use crate::changeset::config::Config;
use crate::changeset::git::Commit;
use crate::changeset::id::Identifier;
use crate::errors::{Error, ErrorView};
use crate::semver::{semver_of, version_text, SemVer, SemVerView};
use vstd::prelude::*;
use vstd::string::StringSliceAdditionalSpecFns;
use vstd::utf8::{decode_utf8, encode_utf8, encode_utf8_decode_utf8, is_char_boundary};

verus! {

/// A changelog.
#[derive(Debug, Clone, PartialEq, Eq)]
pub struct ChangeLog<'a> {
    /// The text before the first section.
    pub header: &'a str,
    /// The sections.
    pub sections: Vec<ChangeLogSection<'a>>,
    /// The text behind the last section.
    pub footer: &'a str,
    /// The changelog as it was written.
    pub verbatim: &'a str,
}

/// A section of a changelog.
#[derive(Debug, Clone, PartialEq, Eq)]
pub enum ChangeLogSection<'a> {
    /// A section that is kept as it was written.
    Verbatim(&'a str),
    /// A section that was read.
    Parsed(ChangeLogSectionParsed<'a>),
}

/// A section that was read.
#[derive(Debug, Clone, PartialEq, Eq)]
pub struct ChangeLogSectionParsed<'a> {
    /// The version of the release.
    pub version: Version,
    /// The entries, each under its kind of change.
    pub entries: Vec<(String, ChangeLogEntry<'a>)>,
    /// The section as it was written.
    pub verbatim: &'a str,
}

/// An entry of a changelog.
#[derive(Debug, Clone, PartialEq, Eq)]
pub struct ChangeLogEntry<'a> {
    /// What the entry is found by.
    pub id: Identifier<'a>,
    /// What the entry says.
    pub contents: ChangeLogEntryContents,
    /// The entry as it was written, where it was.
    pub verbatim: Option<&'a str>,
}

/// What an entry says.
#[derive(Debug, Clone, PartialEq, Eq)]
pub struct ChangeLogEntryContents {
    /// The issues of the entry.
    pub issues: Option<Vec<u64>>,
    /// The commits of the entry.
    pub commits: Option<Vec<Commit>>,
    /// Whether the change breaks what worked before.
    pub breaking: bool,
    /// The description of the change.
    pub description: String,
    /// The kind of the change.
    pub kind: String,
}

/// The version of a release.
#[derive(Debug, Clone, PartialEq, Eq)]
pub enum Version {
    /// What is not yet released.
    Unreleased,
    /// A release.
    SemVer(SemVer),
}

/// The plain values of a `Version`.
pub ghost enum VersionView {
    Unreleased,
    SemVer(SemVerView),
}

impl View for Version {
    type V = VersionView;

    open spec fn view(&self) -> VersionView {
        match self {
            Version::Unreleased => VersionView::Unreleased,
            Version::SemVer(v) => VersionView::SemVer(v@),
        }
    }
}

/// Where, counted in bytes, the version at the start of a text ends, as
/// `regex` finds it: a digit, up to two more behind dots, then a tag behind
/// `-` and metadata behind `+`.
pub uninterp spec fn version_end(s: Seq<char>) -> Option<nat>;

/// Trusted: compiles the pattern of a version with `regex::Regex::new` and
/// calls `Regex::find`, then `Match::end`. The offset is named
/// `version_end` of the text; it lies within the text, and `regex` hands
/// out offsets between characters only.
#[verifier::external_body]
fn find_version(s: &str) -> (end: Option<usize>)
    ensures
        end is Some <==> version_end(s@) is Some,
        end is Some ==> end->0 == version_end(s@)->0 && end->0 <= s.spec_bytes().len()
            && is_char_boundary(s.spec_bytes(), end->0 as int),
{
    let pattern = regex::Regex::new(r"^(\d(?:\.\d){0,2}(?:-[0-9A-Za-z.-]+)?(?:\+[0-9A-Za-z-]+)?)");
    Some(pattern.ok()?.find(s)?.end())
}

/// The version at the start of a text and what follows it: what stands
/// for the unreleased version, or a version as `version_end` delimits it.
pub open spec fn version_of(s: Seq<char>, unreleased: Seq<char>) -> Result<
    (VersionView, Seq<char>),
    ErrorView,
> {
    if unreleased.is_prefix_of(s) {
        Ok((VersionView::Unreleased, s.skip(unreleased.len() as int)))
    } else {
        match version_end(s) {
            None => Err(ErrorView::InvalidVersion(s)),
            Some(end) => {
                let found = decode_utf8(encode_utf8(s).take(end as int));
                let rest = decode_utf8(encode_utf8(s).skip(end as int));
                match semver_of(found) {
                    Some(v) => Ok((VersionView::SemVer(v), rest)),
                    None => Err(ErrorView::InvalidVersion(found)),
                }
            },
        }
    }
}

impl Version {
    /// The version as text: what the settings put for the unreleased
    /// version, or the release.
    pub fn to_string(&self, config: &Config<'_>) -> (text: String)
        ensures
            text@ == (match self@ {
                VersionView::Unreleased => config.inner.section.unreleased@,
                VersionView::SemVer(v) => version_text(v),
            }),
    {
        match self {
            Version::Unreleased => config.unreleased().to_owned(),
            Version::SemVer(version) => version.to_string(),
        }
    }

    /// The version at the start of `s`, and what follows it. A text that
    /// begins with no version is an error.
    pub fn parse(s: &str, config: &Config<'_>) -> (made: Result<(Version, String), Error>)
        ensures
            match made {
                Ok(found) => version_of(s@, config.inner.section.unreleased@) == Ok::<
                    (VersionView, Seq<char>),
                    ErrorView,
                >((found.0@, found.1@)),
                Err(e) => version_of(s@, config.inner.section.unreleased@) == Err::<
                    (VersionView, Seq<char>),
                    ErrorView,
                >(e@),
            },
    {
        match crate::text::strip_prefix(s, config.unreleased()) {
            Some(rest) => Ok((Version::Unreleased, rest)),
            None => {
                let end = match find_version(s) {
                    Some(end) => end,
                    None => {
                        return Err(Error::InvalidVersion(s.to_owned()));
                    },
                };
                let (found, rest) = s.split_at(end);
                proof {
                    encode_utf8_decode_utf8(found@);
                    encode_utf8_decode_utf8(rest@);
                    assert(encode_utf8(s@).take(end as int) =~= encode_utf8(s@).subrange(
                        0,
                        end as int,
                    ));
                    assert(encode_utf8(s@).skip(end as int) =~= encode_utf8(s@).subrange(
                        end as int,
                        encode_utf8(s@).len() as int,
                    ));
                }
                match SemVer::parse(found) {
                    Some(version) => Ok((Version::SemVer(version), rest.to_owned())),
                    None => Err(Error::InvalidVersion(found.to_owned())),
                }
            },
        }
    }
}

} // verus!
