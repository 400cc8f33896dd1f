//! What cargo reports about a project, and cargo's subcommands.

use crate::command::{bare, Command};
use crate::path::{parent, parent_of, push_component, push_path};
use crate::text::{concat, join_strings, join_with, lemma_strs_push, opt_str, str_eq, strs};
use vstd::prelude::*;

verus! {

/// One package of cargo's metadata.
#[derive(Debug, Clone, PartialEq, Eq)]
pub struct Package {
    pub id: String,
    pub name: String,
    pub manifest_path: String,
    pub source: Option<String>,
    pub version: String,
    pub license: Option<String>,
}

/// Cargo's metadata of a workspace.
#[derive(Debug, Clone, PartialEq, Eq)]
pub struct CargoMetadata {
    pub workspace_root: String,
    pub target_directory: String,
    pub packages: Vec<Package>,
    pub workspace_members: Vec<String>,
}

impl Package {
    /// The directory of the package's manifest, where the package has no
    /// source: it is then a path dependency or a member of the workspace.
    pub open spec fn spec_crate_path(&self) -> Option<Seq<char>> {
        if self.source is None {
            parent(self.manifest_path@)
        } else {
            None
        }
    }

    /// The directory of the package's manifest, where the package has no
    /// source.
    pub fn crate_path(&self) -> (dir: Option<String>)
        ensures
            dir is Some <==> self.spec_crate_path() is Some,
            dir is Some ==> dir->0@ == self.spec_crate_path()->0,
    {
        if self.source.is_none() {
            parent_of(self.manifest_path.as_str())
        } else {
            None
        }
    }
}

/// A subcommand of cargo.
#[derive(Debug, Clone, PartialEq, Eq)]
pub enum Subcommand {
    Build,
    Check,
    Doc,
    Run,
    Rustc,
    Test,
    Bench,
    Clippy,
    Metadata,
    List,
    Clean,
    /// A subcommand that is not cargo's own and is not known here.
    Other(String),
    /// A subcommand that is not cargo's own but is known here.
    Custom(String),
}

/// The plain values of a `Subcommand`.
pub ghost enum SubcommandView {
    Build,
    Check,
    Doc,
    Run,
    Rustc,
    Test,
    Bench,
    Clippy,
    Metadata,
    List,
    Clean,
    Other(Seq<char>),
    Custom(Seq<char>),
}

impl View for Subcommand {
    type V = SubcommandView;

    open spec fn view(&self) -> SubcommandView {
        match self {
            Subcommand::Build => SubcommandView::Build,
            Subcommand::Check => SubcommandView::Check,
            Subcommand::Doc => SubcommandView::Doc,
            Subcommand::Run => SubcommandView::Run,
            Subcommand::Rustc => SubcommandView::Rustc,
            Subcommand::Test => SubcommandView::Test,
            Subcommand::Bench => SubcommandView::Bench,
            Subcommand::Clippy => SubcommandView::Clippy,
            Subcommand::Metadata => SubcommandView::Metadata,
            Subcommand::List => SubcommandView::List,
            Subcommand::Clean => SubcommandView::Clean,
            Subcommand::Other(name) => SubcommandView::Other(name@),
            Subcommand::Custom(name) => SubcommandView::Custom(name@),
        }
    }
}

/// The subcommand that a word names: one of cargo's own, or another that
/// keeps the word.
pub open spec fn named_subcommand(s: Seq<char>) -> SubcommandView {
    match subcommand_of(s) {
        Some(sub) => sub@,
        None => SubcommandView::Other(s),
    }
}

/// The subcommand of cargo's own that a word of the command line names.
pub open spec fn subcommand_of(s: Seq<char>) -> Option<Subcommand> {
    if s == "b"@ || s == "build"@ {
        Some(Subcommand::Build)
    } else if s == "c"@ || s == "check"@ {
        Some(Subcommand::Check)
    } else if s == "clean"@ {
        Some(Subcommand::Clean)
    } else if s == "doc"@ {
        Some(Subcommand::Doc)
    } else if s == "r"@ || s == "run"@ {
        Some(Subcommand::Run)
    } else if s == "rustc"@ {
        Some(Subcommand::Rustc)
    } else if s == "t"@ || s == "test"@ {
        Some(Subcommand::Test)
    } else if s == "bench"@ {
        Some(Subcommand::Bench)
    } else if s == "clippy"@ {
        Some(Subcommand::Clippy)
    } else if s == "metadata"@ {
        Some(Subcommand::Metadata)
    } else if s == "--list"@ {
        Some(Subcommand::List)
    } else {
        None
    }
}

/// Whether a word names one of cargo's own subcommands.
pub open spec fn is_builtin(s: Seq<char>) -> bool {
    subcommand_of(s) is Some
}

/// The subcommands that are known though not cargo's own.
pub open spec fn known_subcommands() -> Seq<Seq<char>> {
    seq![
        "asm"@,
        "audit"@,
        "binutils"@,
        "deb"@,
        "deny"@,
        "deps"@,
        "emit"@,
        "expand"@,
        "generate"@,
        "hack"@,
        "llvm-cov"@,
        "outdated"@,
        "release"@,
        "tarpaulin"@,
        "tree"@,
        "udeps"@,
        "when"@,
    ]
}

/// Whether a word names a subcommand that is known though not cargo's
/// own.
pub open spec fn is_known_subcommand(s: Seq<char>) -> bool {
    known_subcommands().contains(s)
}

/// The subcommands installed for each target: each target at most once.
#[derive(Debug, Clone, PartialEq, Eq)]
pub struct InstalledSubcommands {
    pub targets: Vec<(String, Vec<String>)>,
}

impl InstalledSubcommands {
    /// Whether `subcommand` is listed for `triple`.
    pub open spec fn lists(&self, triple: Seq<char>, subcommand: Seq<char>) -> bool {
        exists|i: int, j: int|
            0 <= i < self.targets@.len() && 0 <= j < self.targets@[i].1@.len()
                && self.targets@[i].0@ == triple && #[trigger] self.targets@[i].1@[j]@
                == subcommand
    }
}

impl Subcommand {
    /// The subcommand that `s` names: one of cargo's own, or another that
    /// keeps the word.
    pub fn from(s: &str) -> (sub: Subcommand)
        ensures
            is_builtin(s@) ==> sub == subcommand_of(s@)->0,
            !is_builtin(s@) ==> (sub matches Subcommand::Other(name) && name@ == s@),
            sub@ == named_subcommand(s@),
    {
        if str_eq(s, "b") || str_eq(s, "build") {
            Subcommand::Build
        } else if str_eq(s, "c") || str_eq(s, "check") {
            Subcommand::Check
        } else if str_eq(s, "clean") {
            Subcommand::Clean
        } else if str_eq(s, "doc") {
            Subcommand::Doc
        } else if str_eq(s, "r") || str_eq(s, "run") {
            Subcommand::Run
        } else if str_eq(s, "rustc") {
            Subcommand::Rustc
        } else if str_eq(s, "t") || str_eq(s, "test") {
            Subcommand::Test
        } else if str_eq(s, "bench") {
            Subcommand::Bench
        } else if str_eq(s, "clippy") {
            Subcommand::Clippy
        } else if str_eq(s, "metadata") {
            Subcommand::Metadata
        } else if str_eq(s, "--list") {
            Subcommand::List
        } else {
            Subcommand::Other(s.to_owned())
        }
    }

    /// Whether the subcommand runs in a container: all do but those that
    /// are not known and the listing; cleaning does only on a remote
    /// engine.
    pub open spec fn spec_needs_docker(&self, is_remote: bool) -> bool {
        match self {
            Subcommand::Other(_) => false,
            Subcommand::List => false,
            Subcommand::Clean => is_remote,
            _ => true,
        }
    }

    #[must_use]
    pub fn needs_docker(&self, is_remote: bool) -> (yes: bool)
        ensures
            yes == self.spec_needs_docker(is_remote),
    {
        match self {
            Subcommand::Other(_) => false,
            Subcommand::List => false,
            Subcommand::Clean => is_remote,
            _ => true,
        }
    }

    /// Whether the subcommand runs on this machine as well: cleaning on a
    /// remote engine.
    #[must_use]
    pub fn needs_host(&self, is_remote: bool) -> (yes: bool)
        ensures
            yes == (self is Clean && is_remote),
    {
        matches!(self, Subcommand::Clean) && is_remote
    }

    /// Whether the subcommand runs binaries of the target.
    #[must_use]
    pub fn needs_interpreter(&self) -> (yes: bool)
        ensures
            yes == (self is Run || self is Test || self is Bench),
    {
        matches!(self, Subcommand::Run | Subcommand::Test | Subcommand::Bench)
    }

    /// Whether the target is named on the subcommand's command line.
    #[must_use]
    pub fn needs_target_in_command(&self) -> (yes: bool)
        ensures
            yes == !(self is Metadata),
    {
        !matches!(self, Subcommand::Metadata)
    }

    /// Where the installed subcommands are recorded: in cargo's directory.
    pub fn json_path(cargo_dir: &str) -> (path: String)
        ensures
            path@ == push_component(cargo_dir@, "subcommands.json"@),
    {
        push_path(cargo_dir, "subcommands.json")
    }

    /// The subcommands that are known though not cargo's own.
    pub fn known() -> (names: Vec<String>)
        ensures
            strs(names@) == known_subcommands(),
    {
        let mut names: Vec<String> = Vec::new();
        crate::text::push_str(&mut names, "asm");
        crate::text::push_str(&mut names, "audit");
        crate::text::push_str(&mut names, "binutils");
        crate::text::push_str(&mut names, "deb");
        crate::text::push_str(&mut names, "deny");
        crate::text::push_str(&mut names, "deps");
        crate::text::push_str(&mut names, "emit");
        crate::text::push_str(&mut names, "expand");
        crate::text::push_str(&mut names, "generate");
        crate::text::push_str(&mut names, "hack");
        crate::text::push_str(&mut names, "llvm-cov");
        crate::text::push_str(&mut names, "outdated");
        crate::text::push_str(&mut names, "release");
        crate::text::push_str(&mut names, "tarpaulin");
        crate::text::push_str(&mut names, "tree");
        crate::text::push_str(&mut names, "udeps");
        crate::text::push_str(&mut names, "when");
        assert(strs(names@) =~= known_subcommands());
        names
    }

    /// Whether `subcommand` is known though not cargo's own.
    pub fn is_known(subcommand: &str) -> (yes: bool)
        ensures
            yes == is_known_subcommand(subcommand@),
    {
        contains_string(&Subcommand::known(), subcommand)
    }

    /// Whether `subcommand` is recorded as installed for the target.
    pub fn is_installed(installed: &InstalledSubcommands, triple: &str, subcommand: &str) -> (yes:
        bool)
        ensures
            yes == installed.lists(triple@, subcommand@),
    {
        let mut i: usize = 0;
        while i < installed.targets.len()
            invariant
                i <= installed.targets.len(),
                forall|a: int, b: int|
                    0 <= a < i && 0 <= b < installed.targets@[a].1@.len() ==> !(
                    installed.targets@[a].0@ == triple@ && #[trigger] installed.targets@[a].1@[b]@
                        == subcommand@),
            decreases installed.targets.len() - i,
        {
            let entry = &installed.targets[i];
            if str_eq(entry.0.as_str(), triple) {
                let mut j: usize = 0;
                while j < entry.1.len()
                    invariant
                        j <= entry.1.len(),
                        i < installed.targets.len(),
                        *entry == installed.targets@[i as int],
                        entry.0@ == triple@,
                        forall|b: int| 0 <= b < j ==> #[trigger] entry.1@[b]@ != subcommand@,
                    decreases entry.1.len() - j,
                {
                    if str_eq(entry.1[j].as_str(), subcommand) {
                        assert(installed.targets@[i as int].1@[j as int]@ == subcommand@);
                        return true;
                    }
                    j += 1;
                }
            }
            i += 1;
        }
        false
    }
}

/// The packages that are no members of the workspace, in order.
pub open spec fn outsiders(packages: Seq<Package>, members: Seq<Seq<char>>) -> Seq<Package>
    decreases packages.len(),
{
    if packages.len() == 0 {
        Seq::empty()
    } else {
        let before = outsiders(packages.drop_last(), members);
        if members.contains(packages.last().id@) {
            before
        } else {
            before.push(packages.last())
        }
    }
}

/// The directories of those of the packages that have no source, in
/// order.
pub open spec fn crate_paths(packages: Seq<Package>) -> Seq<Seq<char>>
    decreases packages.len(),
{
    if packages.len() == 0 {
        Seq::empty()
    } else {
        let before = crate_paths(packages.drop_last());
        match packages.last().spec_crate_path() {
            Some(dir) => before.push(dir),
            None => before,
        }
    }
}

/// Whether `list` holds `item`.
pub fn contains_string(list: &Vec<String>, item: &str) -> (yes: bool)
    ensures
        yes == strs(list@).contains(item@),
{
    let mut i: usize = 0;
    while i < list.len()
        invariant
            i <= list.len(),
            forall|j: int| 0 <= j < i ==> strs(list@)[j] != item@,
        decreases list.len() - i,
    {
        if str_eq(list[i].as_str(), item) {
            assert(strs(list@)[i as int] == item@);
            return true;
        }
        i += 1;
    }
    false
}

/// The name predicate of `get_package`.
pub open spec fn is_named(name: Seq<char>) -> spec_fn(Package) -> bool {
    |p: Package| p.name@ == name
}

impl CargoMetadata {
    /// The packages that are no members of the workspace, in order.
    pub fn non_workspace_members(&self) -> (found: Vec<&Package>)
        ensures
            found@.len() == outsiders(self.packages@, strs(self.workspace_members@)).len(),
            forall|i: int|
                0 <= i < found@.len() ==> *#[trigger] found@[i] == outsiders(
                    self.packages@,
                    strs(self.workspace_members@),
                )[i],
    {
        let mut found: Vec<&Package> = Vec::new();
        let ghost members = strs(self.workspace_members@);
        let mut i: usize = 0;
        assert(self.packages@.take(0) =~= Seq::empty());
        while i < self.packages.len()
            invariant
                i <= self.packages.len(),
                members == strs(self.workspace_members@),
                found@.len() == outsiders(self.packages@.take(i as int), members).len(),
                forall|k: int|
                    0 <= k < found@.len() ==> *#[trigger] found@[k] == outsiders(
                        self.packages@.take(i as int),
                        members,
                    )[k],
            decreases self.packages.len() - i,
        {
            let p = &self.packages[i];
            proof {
                let now = self.packages@.take(i + 1);
                assert(now.drop_last() =~= self.packages@.take(i as int));
                assert(now.last() == *p);
            }
            if !contains_string(&self.workspace_members, p.id.as_str()) {
                found.push(p);
            }
            i += 1;
        }
        assert(self.packages@.take(self.packages.len() as int) =~= self.packages@);
        found
    }

    /// The directories of the dependencies that lie outside the
    /// workspace: of the packages that are no members, those without a
    /// source.
    pub fn path_dependencies(&self) -> (dirs: Vec<String>)
        ensures
            strs(dirs@) == crate_paths(
                outsiders(self.packages@, strs(self.workspace_members@)),
            ),
    {
        let found = self.non_workspace_members();
        let ghost all = outsiders(self.packages@, strs(self.workspace_members@));
        let mut dirs: Vec<String> = Vec::new();
        let mut i: usize = 0;
        assert(all.take(0) =~= Seq::empty());
        assert(strs(dirs@) =~= Seq::empty());
        while i < found.len()
            invariant
                i <= found.len(),
                found@.len() == all.len(),
                forall|k: int| 0 <= k < found@.len() ==> *#[trigger] found@[k] == all[k],
                strs(dirs@) == crate_paths(all.take(i as int)),
            decreases found.len() - i,
        {
            proof {
                let now = all.take(i + 1);
                assert(now.drop_last() =~= all.take(i as int));
                assert(now.last() == *found@[i as int]);
            }
            match found[i].crate_path() {
                Some(dir) => {
                    proof {
                        lemma_strs_push(dirs@, dir);
                    }
                    dirs.push(dir);
                },
                None => {},
            }
            i += 1;
        }
        assert(all.take(found.len() as int) =~= all);
        dirs
    }

    /// The first package with the name `package`.
    #[must_use]
    pub fn get_package(&self, package: &str) -> (found: Option<&Package>)
        ensures
            found is Some <==> exists|i: int|
                0 <= i < self.packages@.len() && #[trigger] self.packages@[i].name@ == package@,
            found is Some ==> {
                let i = crate::text::first_match(self.packages@, is_named(package@));
                0 <= i < self.packages@.len() && *found->0 == self.packages@[i]
            },
    {
        let mut i: usize = 0;
        while i < self.packages.len()
            invariant
                i <= self.packages.len(),
                forall|j: int| 0 <= j < i ==> !is_named(package@)(#[trigger] self.packages@[j]),
            decreases self.packages.len() - i,
        {
            if str_eq(self.packages[i].name.as_str(), package) {
                proof {
                    crate::text::lemma_first_match_is(
                        self.packages@,
                        is_named(package@),
                        i as int,
                    );
                }
                return Some(&self.packages[i]);
            }
            i += 1;
        }
        assert forall|k: int| 0 <= k < self.packages@.len() implies #[trigger] self.packages@[k].name@
            != package@ by {
            assert(!is_named(package@)(self.packages@[k]));
        }
        None
    }
}

/// The build tool on this machine.
#[must_use]
pub fn cargo_command() -> (cmd: Command)
    ensures
        cmd@ == bare("cargo"@),
{
    Command::new("cargo")
}

/// What is asked of `cargo metadata`.
#[derive(Debug, Clone, PartialEq, Eq)]
pub struct MetadataQuery {
    /// The toolchain.
    pub channel: Option<String>,
    /// The manifest of the project. Without one, dependencies are left
    /// out.
    pub manifest_path: Option<String>,
    /// Whether the command line was read at all.
    pub has_args: bool,
    /// The target whose dependencies are listed.
    pub triple: Option<String>,
    /// The features that are switched on.
    pub features: Vec<String>,
}

/// The option that names a value, where there is one.
pub open spec fn named_option(name: Seq<char>, value: Option<Seq<char>>) -> Seq<Seq<char>> {
    match value {
        Some(v) => seq![name, v],
        None => Seq::empty(),
    }
}

/// The arguments of `cargo metadata`.
pub open spec fn metadata_args(query: &MetadataQuery) -> Seq<Seq<char>> {
    (match query.channel {
        Some(c) => seq!["+"@ + c@],
        None => Seq::empty(),
    }) + seq!["metadata"@, "--format-version"@, "1"@] + (if query.has_args {
        named_option("--manifest-path"@, opt_str(query.manifest_path))
    } else {
        seq!["--no-deps"@]
    }) + named_option("--filter-platform"@, opt_str(query.triple)) + (if query.features@.len() > 0 {
        seq!["--features"@, join_with(strs(query.features@), ","@)]
    } else {
        Seq::empty()
    })
}

/// The command that asks cargo for the metadata of a project.
pub fn cargo_metadata_with_args(query: &MetadataQuery) -> (cmd: Command)
    ensures
        cmd@ == bare("cargo"@).args(metadata_args(query)),
{
    let mut cmd = cargo_command();
    match &query.channel {
        Some(c) => {
            cmd.arg(concat("+", c.as_str()).as_str());
        },
        None => {},
    }
    cmd.arg("metadata");
    cmd.arg2("--format-version", "1");
    if query.has_args {
        match &query.manifest_path {
            Some(p) => {
                cmd.arg2("--manifest-path", p.as_str());
            },
            None => {},
        }
    } else {
        cmd.arg("--no-deps");
    }
    match &query.triple {
        Some(t) => {
            cmd.arg2("--filter-platform", t.as_str());
        },
        None => {},
    }
    if query.features.len() > 0 {
        cmd.arg2("--features", join_strings(&query.features, ",").as_str());
    }
    assert(cmd@.args =~= metadata_args(query));
    cmd
}

/// The command that hands `args` to the build tool on this machine.
pub fn run(args: &Vec<String>) -> (cmd: Command)
    ensures
        cmd@ == bare("cargo"@).args(strs(args@)),
{
    let mut cmd = cargo_command();
    cmd.args(args);
    cmd
}

/// The command whose output is wanted whatever its exit status.
pub fn run_and_get_output(args: &Vec<String>) -> (cmd: Command)
    ensures
        cmd@ == bare("cargo"@).args(strs(args@)),
{
    run(args)
}

} // verus!
