//! Versions as semver.org defines them, held as plain values.

use crate::text::{concat3, decimal, decimal_string};
use vstd::prelude::*;

verus! {

/// A version: three numbers, a pre-release tag and build metadata, the
/// last two possibly empty.
#[derive(Debug, Clone, PartialEq, Eq)]
pub struct SemVer {
    pub major: u64,
    pub minor: u64,
    pub patch: u64,
    pub pre: String,
    pub build: String,
}

/// The plain values of a `SemVer`.
pub ghost struct SemVerView {
    pub major: u64,
    pub minor: u64,
    pub patch: u64,
    pub pre: Seq<char>,
    pub build: Seq<char>,
}

impl View for SemVer {
    type V = SemVerView;

    open spec fn view(&self) -> SemVerView {
        SemVerView {
            major: self.major,
            minor: self.minor,
            patch: self.patch,
            pre: self.pre@,
            build: self.build@,
        }
    }
}

/// What `semver::Version::parse` makes of a text: the version, or nothing
/// where the text is none.
pub uninterp spec fn semver_of(text: Seq<char>) -> Option<SemVerView>;

/// Trusted: calls `semver::Version::parse` and moves the fields of what it
/// returns, the tag and the metadata as text. The result is named
/// `semver_of` of the text; the call fails exactly where that is nothing.
#[verifier::external_body]
fn parse_version(text: &str) -> (version: Option<SemVer>)
    ensures
        version is Some <==> semver_of(text@) is Some,
        version is Some ==> version->0@ == semver_of(text@)->0,
{
    match semver::Version::parse(text) {
        Ok(v) => Some(
            SemVer {
                major: v.major,
                minor: v.minor,
                patch: v.patch,
                pre: v.pre.as_str().to_owned(),
                build: v.build.as_str().to_owned(),
            },
        ),
        Err(_) => None,
    }
}

/// A version as text: the three numbers between dots, then the tag behind
/// a `-` and the metadata behind a `+`, each only where it is not empty.
pub open spec fn version_text(v: SemVerView) -> Seq<char> {
    decimal(v.major as nat) + "."@ + decimal(v.minor as nat) + "."@ + decimal(v.patch as nat) + (
    if v.pre.len() > 0 {
        "-"@ + v.pre
    } else {
        Seq::empty()
    }) + (if v.build.len() > 0 {
        "+"@ + v.build
    } else {
        Seq::empty()
    })
}

impl SemVer {
    /// The version that `text` is, where it is one.
    pub fn parse(text: &str) -> (version: Option<SemVer>)
        ensures
            version is Some <==> semver_of(text@) is Some,
            version is Some ==> version->0@ == semver_of(text@)->0,
    {
        parse_version(text)
    }

    /// The version as text.
    pub fn to_string(&self) -> (text: String)
        ensures
            text@ == version_text(self@),
    {
        let mut text = concat3(decimal_string(self.major).as_str(), ".", decimal_string(self.minor).as_str());
        text.append(".");
        text.append(decimal_string(self.patch).as_str());
        let ghost numbers = text@;
        if !self.pre.as_str().is_empty() {
            text.append("-");
            text.append(self.pre.as_str());
        }
        let ghost tagged = text@;
        if !self.build.as_str().is_empty() {
            text.append("+");
            text.append(self.build.as_str());
        }
        assert(tagged =~= numbers + (if self@.pre.len() > 0 {
            "-"@ + self@.pre
        } else {
            Seq::empty()
        }));
        assert(text@ =~= tagged + (if self@.build.len() > 0 {
            "+"@ + self@.build
        } else {
            Seq::empty()
        }));
        text
    }
}

} // verus!
