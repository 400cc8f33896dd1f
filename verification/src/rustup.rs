//! What the toolchain manager says, and what is asked of it.

use crate::command::{bare, Command};
use crate::errors::{Error, ErrorView};
use crate::path::{push_component, push_path};
use crate::semver::{semver_of, SemVer};
use crate::target::Target;
use crate::text::{
    after_first, before_first, chars_of, contains, contains_seq, lemma_strs_push, lines,
    lines_of, split_at_first, starts_with, str_eq, string_of_range, strs, trim, trimmed,
};
use vstd::prelude::*;

verus! {

/// The targets of a toolchain.
#[derive(Debug, Clone, PartialEq, Eq)]
pub struct AvailableTargets {
    pub default: String,
    pub installed: Vec<String>,
    pub not_installed: Vec<String>,
}

/// Whether `list` holds `item`.
fn holds(list: &Vec<String>, item: &str) -> (yes: bool)
    ensures
        yes == strs(list@).contains(item@),
{
    crate::cargo::contains_string(list, item)
}

impl AvailableTargets {
    /// Whether the toolchain has the target's libraries: the target is the
    /// default one or is installed.
    pub open spec fn spec_is_installed(&self, triple: Seq<char>) -> bool {
        triple == self.default@ || strs(self.installed@).contains(triple)
    }

    /// Whether the toolchain knows the target at all.
    pub fn contains(&self, target: &Target) -> (yes: bool)
        ensures
            yes == (self.spec_is_installed(target.spec_triple()) || strs(
                self.not_installed@,
            ).contains(target.spec_triple())),
    {
        let triple = target.triple();
        self.is_installed(target) || holds(&self.not_installed, triple)
    }

    /// Whether the toolchain has the target's libraries.
    pub fn is_installed(&self, target: &Target) -> (yes: bool)
        ensures
            yes == self.spec_is_installed(target.spec_triple()),
    {
        let triple = target.triple();
        str_eq(triple, self.default.as_str()) || holds(&self.installed, triple)
    }
}

/// The index of the first place in `s` where `pat` stands, or the length
/// of `s` where it stands nowhere.
pub open spec fn find(s: Seq<char>, pat: Seq<char>) -> int
    decreases s.len(),
{
    if pat.is_prefix_of(s) {
        0
    } else if s.len() == 0 {
        0
    } else {
        1 + find(s.drop_first(), pat)
    }
}

/// `s` without any `pat`: each `pat` is cut out from left to right, and
/// what a cut joins is not cut again. An empty `pat` cuts nothing.
pub open spec fn without(s: Seq<char>, pat: Seq<char>) -> Seq<char>
    decreases s.len(),
{
    let i = find(s, pat);
    if pat.len() > 0 && 0 <= i && i + pat.len() <= s.len() {
        s.take(i) + without(s.skip(i + pat.len()), pat)
    } else {
        s
    }
}

/// `find` is within bounds and names the first place where `pat` stands.
pub proof fn lemma_find(s: Seq<char>, pat: Seq<char>)
    ensures
        0 <= find(s, pat) <= s.len(),
        find(s, pat) < s.len() ==> pat.is_prefix_of(s.skip(find(s, pat))),
        forall|j: int| 0 <= j < find(s, pat) ==> !pat.is_prefix_of(#[trigger] s.skip(j)),
        find(s, pat) == s.len() && pat.len() > 0 ==> !pat.is_prefix_of(s.skip(s.len() as int)),
    decreases s.len(),
{
    assert(s.skip(0) =~= s);
    if !pat.is_prefix_of(s) && s.len() > 0 {
        let t = s.drop_first();
        lemma_find(t, pat);
        assert forall|j: int| 0 <= j < find(s, pat) implies !pat.is_prefix_of(
            #[trigger] s.skip(j),
        ) by {
            if j > 0 {
                assert(s.skip(j) =~= t.skip(j - 1));
            }
        }
        if find(s, pat) < s.len() {
            assert(s.skip(find(s, pat)) =~= t.skip(find(t, pat)));
        }
    }
}

/// An index with the properties of `find` is `find`.
pub proof fn lemma_find_is(s: Seq<char>, pat: Seq<char>, i: int)
    requires
        0 <= i <= s.len(),
        i < s.len() ==> pat.is_prefix_of(s.skip(i)),
        forall|j: int| 0 <= j < i ==> !pat.is_prefix_of(#[trigger] s.skip(j)),
    ensures
        find(s, pat) == i,
{
    lemma_find(s, pat);
    let k = find(s, pat);
    if k < i {
        assert(pat.is_prefix_of(s.skip(k)));
    }
    if i < k {
        assert(!pat.is_prefix_of(s.skip(i)));
    }
}

/// `s` without any `pat`.
pub fn remove_all(s: &str, pat: &str) -> (out: String)
    ensures
        out@ == without(s@, pat@),
{
    let chars = chars_of(s);
    let p = chars_of(pat);
    if p.len() == 0 {
        return s.to_owned();
    }
    let mut out = String::new();
    let mut start: usize = 0;
    let mut i: usize = 0;
    assert(chars@.skip(0) =~= chars@);
    while i < chars.len()
        invariant
            start <= i <= chars.len(),
            p.len() > 0,
            p@ == pat@,
            without(chars@, p@) == out@ + without(chars@.skip(start as int), p@),
            forall|j: int| start <= j < i ==> !p@.is_prefix_of(#[trigger] chars@.skip(j)),
        decreases chars.len() - i,
    {
        assert(chars@.skip(i as int) =~= chars@.subrange(i as int, chars.len() as int));
        if crate::text::starts_with_at(&chars, i, &p) {
            let ghost rest = chars@.skip(start as int);
            proof {
                assert forall|j: int| 0 <= j < i - start implies !p@.is_prefix_of(
                    #[trigger] rest.skip(j),
                ) by {
                    assert(rest.skip(j) =~= chars@.skip(start + j));
                }
                assert(rest.skip(i - start) =~= chars@.skip(i as int));
                lemma_find_is(rest, p@, i - start);
                assert(rest.take(i - start) =~= chars@.subrange(start as int, i as int));
                assert(rest.skip(i - start + p.len()) =~= chars@.skip(i + p.len()));
            }
            out.append(string_of_range(&chars, start, i).as_str());
            i = i + p.len();
            start = i;
            assert(without(chars@, p@) =~= out@ + without(chars@.skip(start as int), p@));
        } else {
            i += 1;
        }
    }
    proof {
        let rest = chars@.skip(start as int);
        assert forall|j: int| 0 <= j < rest.len() implies !p@.is_prefix_of(
            #[trigger] rest.skip(j),
        ) by {
            assert(rest.skip(j) =~= chars@.skip(start + j));
        }
        lemma_find_is(rest, p@, rest.len() as int);
        assert(rest =~= chars@.subrange(start as int, chars.len() as int));
    }
    out.append(string_of_range(&chars, start, chars.len()).as_str());
    out
}

/// The name of a toolchain in a line of the manager's list: the line
/// without the marks of the default and of an override, trimmed.
pub open spec fn toolchain_name(line: Seq<char>) -> Seq<char> {
    trim(without(without(line, " (default)"@), " (override)"@))
}

/// The names of the toolchains in lines of the manager's list.
pub open spec fn toolchain_names(all: Seq<Seq<char>>) -> Seq<Seq<char>> {
    Seq::new(all.len(), |i: int| toolchain_name(all[i]))
}

/// The command that lists the installed toolchains.
pub fn installed_toolchains_command() -> (cmd: Command)
    ensures
        cmd@ == bare("rustup"@).arg("toolchain"@).arg("list"@),
{
    let mut cmd = Command::new("rustup");
    cmd.arg2("toolchain", "list");
    cmd
}

/// The installed toolchains, from what the manager printed.
pub fn installed_toolchains(out: &str) -> (names: Vec<String>)
    ensures
        strs(names@) == toolchain_names(lines(out@)),
{
    let all = lines_of(out);
    let mut names: Vec<String> = Vec::new();
    let mut i: usize = 0;
    while i < all.len()
        invariant
            i <= all.len(),
            strs(names@) == toolchain_names(strs(all@).take(i as int)),
        decreases all.len() - i,
    {
        let plain = remove_all(remove_all(all[i].as_str(), " (default)").as_str(), " (override)");
        let name = trimmed(plain.as_str());
        proof {
            lemma_strs_push(names@, name);
        }
        names.push(name);
        i += 1;
        assert(strs(names@) =~= toolchain_names(strs(all@).take(i as int)));
    }
    assert(strs(all@).take(all.len() as int) =~= strs(all@));
    names
}

/// The command that lists the targets of a toolchain.
pub fn available_targets_command(toolchain: &str) -> (cmd: Command)
    ensures
        cmd@ == bare("rustup"@).arg("target"@).arg("list"@).arg("--toolchain"@).arg(toolchain@),
{
    let mut cmd = Command::new("rustup");
    cmd.arg2("target", "list");
    cmd.arg2("--toolchain", toolchain);
    cmd
}

/// Whether a line names the default target.
pub open spec fn is_default_line(line: Seq<char>) -> bool {
    contains_seq(line, "(default)"@)
}

/// Whether a line names an installed target that is not the default.
pub open spec fn is_installed_line(line: Seq<char>) -> bool {
    !is_default_line(line) && contains_seq(line, "(installed)"@)
}

/// The target that a line names: what stands before its first blank.
pub open spec fn line_target(line: Seq<char>) -> Seq<char> {
    before_first(line, ' ')
}

/// The targets of those lines that satisfy `keep`, in order.
pub open spec fn targets_where(all: Seq<Seq<char>>, keep: spec_fn(Seq<char>) -> bool) -> Seq<
    Seq<char>,
>
    decreases all.len(),
{
    if all.len() == 0 {
        Seq::empty()
    } else if keep(all.last()) {
        targets_where(all.drop_last(), keep).push(line_target(all.last()))
    } else {
        targets_where(all.drop_last(), keep)
    }
}

/// The predicate of the lines that name the default target.
pub open spec fn default_lines() -> spec_fn(Seq<char>) -> bool {
    |line: Seq<char>| is_default_line(line)
}

/// The predicate of the lines that name an installed target.
pub open spec fn installed_lines() -> spec_fn(Seq<char>) -> bool {
    |line: Seq<char>| is_installed_line(line)
}

/// The predicate of the lines that name a target that is not installed.
pub open spec fn other_lines() -> spec_fn(Seq<char>) -> bool {
    |line: Seq<char>| !is_default_line(line) && !is_installed_line(line)
}

/// The default target that the first `n` lines name: the target of the
/// last of them that names one, or nothing.
pub open spec fn default_so_far(all: Seq<Seq<char>>, n: int) -> Seq<char> {
    let defaults = targets_where(all.take(n), default_lines());
    if defaults.len() > 0 {
        defaults.last()
    } else {
        Seq::empty()
    }
}

/// Whether the line with the index `i` names a default target though an
/// earlier line has named one.
pub open spec fn is_second_default(all: Seq<Seq<char>>, i: int) -> bool {
    0 <= i < all.len() && is_default_line(all[i]) && default_so_far(all, i).len() > 0
}

/// Whether any line names a default target though an earlier line has
/// named one.
pub open spec fn has_second_default(all: Seq<Seq<char>>) -> bool {
    exists|i: int| is_second_default(all, i)
}

/// The targets of a toolchain, from what the manager printed: each line
/// names a target and may mark it as the default or as installed. A second
/// default target makes the list malformed: the error keeps the first line
/// that names one.
pub fn available_targets(out: &str) -> (made: Result<AvailableTargets, Error>)
    ensures
        !has_second_default(lines(out@)) <==> made is Ok,
        made is Ok ==> ({
            let all = lines(out@);
            &&& made->Ok_0.default@ == default_so_far(all, all.len() as int)
            &&& strs(made->Ok_0.installed@) == targets_where(all, installed_lines())
            &&& strs(made->Ok_0.not_installed@) == targets_where(all, other_lines())
        }),
        made is Err ==> exists|i: int|
            #![trigger is_second_default(lines(out@), i)]
            is_second_default(lines(out@), i) && (forall|j: int|
                0 <= j < i ==> !is_second_default(lines(out@), j)) && made->Err_0@
                == ErrorView::Malformed(lines(out@)[i]),
{
    let all = lines_of(out);
    let mut default = String::new();
    let mut installed: Vec<String> = Vec::new();
    let mut not_installed: Vec<String> = Vec::new();
    let mut i: usize = 0;
    let ghost ls = strs(all@);
    assert(ls.take(0) =~= Seq::empty());
    assert(strs(installed@) =~= Seq::empty());
    assert(strs(not_installed@) =~= Seq::empty());
    while i < all.len()
        invariant
            i <= all.len(),
            ls == strs(all@),
            ls == lines(out@),
            default@ == default_so_far(ls, i as int),
            strs(installed@) == targets_where(ls.take(i as int), installed_lines()),
            strs(not_installed@) == targets_where(ls.take(i as int), other_lines()),
            forall|j: int| 0 <= j < i ==> !is_second_default(ls, j),
        decreases all.len() - i,
    {
        let line = all[i].as_str();
        let chars = chars_of(line);
        let (target, _) = split_at_first(line, ' ');
        proof {
            let now = ls.take(i + 1);
            assert(now.drop_last() =~= ls.take(i as int));
            assert(now.last() == line@);
        }
        if contains(&chars, &chars_of("(default)")) {
            if !default.as_str().is_empty() {
                assert(is_second_default(ls, i as int));
                return Err(Error::Malformed(line.to_owned()));
            }
            default = target;
        } else if contains(&chars, &chars_of("(installed)")) {
            proof {
                lemma_strs_push(installed@, target);
            }
            installed.push(target);
        } else {
            proof {
                lemma_strs_push(not_installed@, target);
            }
            not_installed.push(target);
        }
        i += 1;
    }
    assert(ls.take(all.len() as int) =~= ls);
    Ok(AvailableTargets { default, installed, not_installed })
}

/// The command that installs a toolchain, without what is not needed.
pub fn install_toolchain(toolchain: &str) -> (cmd: Command)
    ensures
        cmd@ == bare("rustup"@).arg("toolchain"@).arg("add"@).arg(toolchain@).arg("--profile"@).arg(
            "minimal"@,
        ),
{
    let mut cmd = Command::new("rustup");
    cmd.arg2("toolchain", "add");
    cmd.arg(toolchain);
    cmd.arg2("--profile", "minimal");
    cmd
}

/// The command that installs the libraries of a target.
pub fn install(target: &Target, toolchain: &str) -> (cmd: Command)
    ensures
        cmd@ == bare("rustup"@).arg("target"@).arg("add"@).arg(target.spec_triple()).arg(
            "--toolchain"@,
        ).arg(toolchain@),
{
    let mut cmd = Command::new("rustup");
    cmd.arg2("target", "add");
    cmd.arg(target.triple());
    cmd.arg2("--toolchain", toolchain);
    cmd
}

/// The command that installs a component of a toolchain.
pub fn install_component(component: &str, toolchain: &str) -> (cmd: Command)
    ensures
        cmd@ == bare("rustup"@).arg("component"@).arg("add"@).arg(component@).arg(
            "--toolchain"@,
        ).arg(toolchain@),
{
    let mut cmd = Command::new("rustup");
    cmd.arg2("component", "add");
    cmd.arg(component);
    cmd.arg2("--toolchain", toolchain);
    cmd
}

/// The command that lists the components of a toolchain.
pub fn component_list_command(toolchain: &str) -> (cmd: Command)
    ensures
        cmd@ == bare("rustup"@).arg("component"@).arg("list"@).arg("--toolchain"@).arg(toolchain@),
{
    let mut cmd = Command::new("rustup");
    cmd.arg2("component", "list");
    cmd.arg2("--toolchain", toolchain);
    cmd
}

/// Whether a line of the manager's list says that the component is
/// installed.
pub open spec fn lists_component(line: Seq<char>, component: Seq<char>) -> bool {
    component.is_prefix_of(line) && contains_seq(line, "installed"@)
}

/// Whether a component is installed, from what the manager printed.
pub fn component_is_installed(out: &str, component: &str) -> (yes: bool)
    ensures
        yes == exists|i: int|
            0 <= i < lines(out@).len() && lists_component(#[trigger] lines(out@)[i], component@),
{
    let all = lines_of(out);
    let name = chars_of(component);
    let word = chars_of("installed");
    let mut i: usize = 0;
    while i < all.len()
        invariant
            i <= all.len(),
            name@ == component@,
            word@ == "installed"@,
            strs(all@) == lines(out@),
            forall|j: int| 0 <= j < i ==> !lists_component(#[trigger] lines(out@)[j], component@),
        decreases all.len() - i,
    {
        let chars = chars_of(all[i].as_str());
        assert(chars@ == strs(all@)[i as int]);
        if starts_with(&chars, &name) && contains(&chars, &word) {
            assert(lists_component(lines(out@)[i as int], component@));
            return true;
        }
        i += 1;
    }
    false
}

/// How far a compiler is from a release.
#[derive(Debug, Clone, Copy, PartialEq, Eq, Structural)]
pub enum Channel {
    Dev,
    Nightly,
    Beta,
    Stable,
}

/// The channel that the first part of a pre-release tag names.
pub open spec fn channel_of(pre: Seq<char>) -> Option<Channel> {
    let first = before_first(pre, '.');
    if first == ""@ {
        Some(Channel::Stable)
    } else if first == "dev"@ {
        Some(Channel::Dev)
    } else if first == "beta"@ {
        Some(Channel::Beta)
    } else if first == "nightly"@ {
        Some(Channel::Nightly)
    } else {
        None
    }
}

/// The channel of a compiler with the version. A pre-release tag that
/// names none is an error that keeps the name.
pub fn rustc_channel(version: &SemVer) -> (made: Result<Channel, Error>)
    ensures
        channel_of(version.pre@) is Some <==> made is Ok,
        made is Ok ==> made->Ok_0 == channel_of(version.pre@)->0,
        made is Err ==> (made->Err_0 matches Error::UnknownChannel(name) && name@ == before_first(
            version.pre@,
            '.',
        )),
{
    let (first, _) = split_at_first(version.pre.as_str(), '.');
    if str_eq(first.as_str(), "") {
        Ok(Channel::Stable)
    } else if str_eq(first.as_str(), "dev") {
        Ok(Channel::Dev)
    } else if str_eq(first.as_str(), "beta") {
        Ok(Channel::Beta)
    } else if str_eq(first.as_str(), "nightly") {
        Ok(Channel::Nightly)
    } else {
        Err(Error::UnknownChannel(first))
    }
}

/// Where a toolchain keeps the manifest of its channel.
pub fn multirust_channel_manifest_path(toolchain_path: &str) -> (path: String)
    ensures
        path@ == push_component(toolchain_path@, "lib/rustlib/multirust-channel-manifest.toml"@),
{
    push_path(toolchain_path, "lib/rustlib/multirust-channel-manifest.toml")
}

/// Trusted: a TOML value of `toml`, an opaque value.
#[verifier::external_type_specification]
#[verifier::external_body]
pub struct ExTomlValue(toml::Value);

/// The strings in a TOML value that stand three tables deep: the three
/// keys that lead to each, with that string.
pub uninterp spec fn toml_strings(doc: toml::Value) -> Map<(Seq<char>, Seq<char>, Seq<char>), Seq<
    char,
>>;

/// Trusted: calls `toml::Value::get` with each key in turn and, on what
/// the last one finds, `Value::as_str`. The string is handed out exactly
/// where the three keys lead to a string of the value.
#[verifier::external_body]
fn toml_string_at(doc: &toml::Value, a: &str, b: &str, c: &str) -> (found: Option<String>)
    ensures
        found is Some <==> toml_strings(*doc).contains_key((a@, b@, c@)),
        found is Some ==> found->0@ == toml_strings(*doc)[(a@, b@, c@)],
{
    Some(doc.get(a)?.get(b)?.get(c)?.as_str()?.to_owned())
}

/// The version text of the compiler in the manifest of a channel, where
/// the manifest has one.
pub fn rustc_version_string(manifest: &toml::Value) -> (found: Option<String>)
    ensures
        found is Some <==> toml_strings(*manifest).contains_key(("pkg"@, "rust"@, "version"@)),
        found is Some ==> found->0@ == toml_strings(*manifest)[("pkg"@, "rust"@, "version"@)],
{
    toml_string_at(manifest, "pkg", "rust", "version")
}

/// The compiler of a toolchain, from the version text of its manifest:
/// the version, the channel, and what follows the version in the text.
/// Nothing where there is no text, or no blank in it. A version that is
/// none, or a channel that is none, is an error.
pub fn rustc_version(rust_version: Option<&str>) -> (made: Result<
    Option<(SemVer, Channel, String)>,
    Error,
>)
    ensures
        rust_version is None || after_first(rust_version->0@, ' ') is None ==> made == Ok::<
            Option<(SemVer, Channel, String)>,
            Error,
        >(None),
        rust_version is Some && after_first(rust_version->0@, ' ') is Some ==> ({
            let text = rust_version->0@;
            let version = semver_of(before_first(text, ' '));
            &&& version is Some && channel_of(version->Some_0.pre) is Some <==> made is Ok
            &&& made is Ok ==> made->Ok_0 is Some && ({
                let found = made->Ok_0->Some_0;
                found.0@ == version->Some_0 && found.1 == channel_of(version->Some_0.pre)->Some_0
                    && found.2@ == after_first(text, ' ')->Some_0
            })
            &&& made is Err && version is None ==> (made->Err_0 matches Error::InvalidVersion(v)
                && v@ == before_first(text, ' '))
            &&& made is Err && version is Some ==> made->Err_0 is UnknownChannel
        }),
{
    let text = match rust_version {
        Some(text) => text,
        None => {
            return Ok(None);
        },
    };
    let (version, meta) = split_at_first(text, ' ');
    let meta = match meta {
        Some(meta) => meta,
        None => {
            return Ok(None);
        },
    };
    let parsed = match SemVer::parse(version.as_str()) {
        Some(v) => v,
        None => {
            return Err(Error::InvalidVersion(version));
        },
    };
    let channel = match rustc_channel(&parsed) {
        Ok(c) => c,
        Err(e) => {
            return Err(e);
        },
    };
    Ok(Some((parsed, channel, meta)))
}

} // verus!
