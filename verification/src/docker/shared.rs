//! The directories of one build, as the engine's host sees them.

use crate::cargo::CargoMetadata;
use crate::path::{
    components, join, join_components, path_starts_with, split_components, strip_components,
    strip_prefix,
};
use crate::text::{first_match, lemma_first_match, lemma_first_match_is, strs};
use vstd::prelude::*;
use vstd::utf8::encode_utf8;

verus! {

/// One entry of the mount table of the container that this process runs in:
/// `destination` is a path as this process sees it, `source` the same place
/// on the engine's host.
#[derive(Debug, Clone, PartialEq, Eq)]
pub struct MountDetail {
    pub source: String,
    pub destination: String,
}

/// The texts of a `MountDetail`.
pub ghost struct MountView {
    pub source: Seq<char>,
    pub destination: Seq<char>,
}

impl View for MountDetail {
    type V = MountView;

    open spec fn view(&self) -> MountView {
        MountView { source: self.source@, destination: self.destination@ }
    }
}

/// The views of a sequence of mounts.
pub open spec fn mount_views(v: Seq<MountDetail>) -> Seq<MountView> {
    Seq::new(v.len(), |i: int| v[i]@)
}

/// The length by which mounts are ranked: the bytes of the destination.
pub open spec fn dest_len(m: MountView) -> nat {
    encode_utf8(m.destination).len()
}

/// The predicate "has a destination shorter than `n` bytes".
pub open spec fn shorter_than(n: nat) -> spec_fn(MountView) -> bool {
    |m: MountView| dest_len(m) < n
}

/// The predicate "has a destination that is a prefix of `path`".
pub open spec fn covers(path: Seq<char>) -> spec_fn(MountView) -> bool {
    |m: MountView| strip_prefix(path, m.destination) is Some
}

/// `sorted` with `m` set behind every mount whose destination is at least
/// as long as that of `m`.
pub open spec fn insert_by_len(sorted: Seq<MountView>, m: MountView) -> Seq<MountView> {
    sorted.insert(first_match(sorted, shorter_than(dest_len(m))), m)
}

/// The mounts ordered by the length of the destination, longest first;
/// mounts of equal length keep the order in which they were given.
pub open spec fn sort_by_len(s: Seq<MountView>) -> Seq<MountView>
    decreases s.len(),
{
    if s.len() == 0 {
        Seq::empty()
    } else {
        insert_by_len(sort_by_len(s.drop_last()), s.last())
    }
}

/// Longest destination first.
pub open spec fn is_sorted(s: Seq<MountView>) -> bool {
    forall|i: int, j: int| 0 <= i <= j < s.len() ==> dest_len(#[trigger] s[i]) >= dest_len(#[trigger] s[j])
}

/// Inserting by length keeps the order and adds exactly the one mount.
pub proof fn lemma_insert_by_len(s: Seq<MountView>, m: MountView)
    requires
        is_sorted(s),
    ensures
        is_sorted(insert_by_len(s, m)),
        insert_by_len(s, m).len() == s.len() + 1,
        forall|x: MountView|
            #![trigger insert_by_len(s, m).contains(x)]
            #![trigger s.contains(x)]
            insert_by_len(s, m).contains(x) <==> (x == m || s.contains(x)),
{
    let p = shorter_than(dest_len(m));
    let k = first_match(s, p);
    lemma_first_match(s, p);
    let t = s.insert(k, m);
    assert forall|i: int, j: int| 0 <= i <= j < t.len() implies dest_len(#[trigger] t[i])
        >= dest_len(#[trigger] t[j]) by {
        if i < k {
            assert(!p(s[i]));
        }
        if j > k {
            assert(p(s[k]));
            assert(dest_len(s[k]) >= dest_len(s[j - 1]));
        }
        if i < k && j > k {
            assert(dest_len(s[i]) >= dest_len(s[j - 1]));
        }
        if i < k && j < k {
            assert(dest_len(s[i]) >= dest_len(s[j]));
        }
        if i > k {
            assert(dest_len(s[i - 1]) >= dest_len(s[j - 1]));
        }
    }
    assert forall|x: MountView| t.contains(x) <==> (x == m || s.contains(x)) by {
        if t.contains(x) {
            let i = choose|i: int| 0 <= i < t.len() && t[i] == x;
            if i < k {
                assert(s[i] == x);
            } else if i > k {
                assert(s[i - 1] == x);
            }
        }
        if x == m {
            assert(t[k] == x);
        }
        if s.contains(x) {
            let i = choose|i: int| 0 <= i < s.len() && s[i] == x;
            if i < k {
                assert(t[i] == x);
            } else {
                assert(t[i + 1] == x);
            }
        }
    }
}

/// Sorting orders the mounts, and neither adds nor loses one.
pub proof fn lemma_sort_by_len(s: Seq<MountView>)
    ensures
        is_sorted(sort_by_len(s)),
        sort_by_len(s).len() == s.len(),
        forall|x: MountView|
            #![trigger sort_by_len(s).contains(x)]
            #![trigger s.contains(x)]
            sort_by_len(s).contains(x) <==> s.contains(x),
    decreases s.len(),
{
    if s.len() > 0 {
        let init = s.drop_last();
        lemma_sort_by_len(init);
        lemma_insert_by_len(sort_by_len(init), s.last());
        assert forall|x: MountView| sort_by_len(s).contains(x) <==> s.contains(x) by {
            if s.contains(x) {
                let i = choose|i: int| 0 <= i < s.len() && s[i] == x;
                if i < s.len() - 1 {
                    assert(init[i] == x);
                }
            }
            if init.contains(x) {
                let i = choose|i: int| 0 <= i < init.len() && init[i] == x;
                assert(s[i] == x);
            }
            assert(s[s.len() - 1] == s.last());
        }
    }
}

/// The index of the mount that translates `path`: the first in the table
/// whose destination is a prefix of `path`, or the table's length.
pub open spec fn chosen(table: Seq<MountView>, path: Seq<char>) -> int {
    first_match(table, covers(path))
}

/// `path` as the engine's host sees it: behind the source of the chosen
/// mount, what follows the mount's destination in `path`; `path` itself
/// where no mount is chosen.
pub open spec fn translate(table: Seq<MountView>, path: Seq<char>) -> Seq<char> {
    let i = chosen(table, path);
    if 0 <= i < table.len() {
        join(table[i].source, strip_prefix(path, table[i].destination)->0)
    } else {
        path
    }
}

/// The length by which the mount is ranked.
pub fn destination_len(m: &MountDetail) -> (len: usize)
    ensures
        len == dest_len(m@),
{
    m.destination.as_str().as_bytes().len()
}

/// A copy of the mount.
pub fn clone_mount(m: &MountDetail) -> (out: MountDetail)
    ensures
        out@ == m@,
{
    MountDetail { source: m.source.clone(), destination: m.destination.clone() }
}

/// Translates paths of this process to paths of the engine's host. Its
/// mounts stand longest destination first, so that of all mounts whose
/// destination is a prefix of a path the most specific one translates it.
#[derive(Debug)]
pub struct MountFinder {
    mounts: Vec<MountDetail>,
}

impl View for MountFinder {
    type V = Seq<MountView>;

    closed spec fn view(&self) -> Seq<MountView> {
        mount_views(self.mounts@)
    }
}

impl MountFinder {
    /// The mounts stand longest destination first.
    #[verifier::type_invariant]
    spec fn is_ordered(self) -> bool {
        is_sorted(mount_views(self.mounts@))
    }
}

impl Default for MountFinder {
    /// The finder without mounts, which leaves every path as it is.
    fn default() -> (finder: MountFinder)
        ensures
            finder@ == Seq::<MountView>::empty(),
    {
        let finder = MountFinder { mounts: Vec::new() };
        assert(finder@ =~= Seq::<MountView>::empty());
        finder
    }
}

impl MountFinder {
    /// The finder for a mount table: longest destination first, so that the
    /// most specific mount is found first.
    pub fn new(mounts: Vec<MountDetail>) -> (finder: MountFinder)
        ensures
            finder@ == sort_by_len(mount_views(mounts@)),
    {
        let mut sorted: Vec<MountDetail> = Vec::new();
        let mut i: usize = 0;
        let ghost all = mount_views(mounts@);
        assert(all.take(0) =~= Seq::<MountView>::empty());
        assert(mount_views(sorted@) =~= Seq::<MountView>::empty());
        while i < mounts.len()
            invariant
                i <= mounts.len(),
                all == mount_views(mounts@),
                mount_views(sorted@) == sort_by_len(all.take(i as int)),
            decreases mounts.len() - i,
        {
            let m = clone_mount(&mounts[i]);
            let len = destination_len(&m);
            let ghost before = mount_views(sorted@);
            let mut k: usize = 0;
            while k < sorted.len() && destination_len(&sorted[k]) >= len
                invariant
                    k <= sorted.len(),
                    before == mount_views(sorted@),
                    len == dest_len(m@),
                    forall|j: int| 0 <= j < k ==> !shorter_than(dest_len(m@))(#[trigger] before[j]),
                decreases sorted.len() - k,
            {
                assert(before[k as int] == sorted@[k as int]@);
                k += 1;
            }
            proof {
                if k < sorted.len() {
                    assert(before[k as int] == sorted@[k as int]@);
                    assert(shorter_than(dest_len(m@))(before[k as int]));
                }
                lemma_first_match_is(before, shorter_than(dest_len(m@)), k as int);
            }
            sorted.insert(k, m);
            i += 1;
            proof {
                assert(mount_views(sorted@) =~= before.insert(k as int, m@));
                assert(all.take(i as int).drop_last() =~= all.take(i - 1));
                assert(all.take(i as int).last() == m@);
            }
        }
        assert(all.take(mounts.len() as int) =~= all);
        proof {
            lemma_sort_by_len(all);
        }
        MountFinder { mounts: sorted }
    }

    /// `path` as the engine's host sees it: the first mount of the table
    /// whose destination is a prefix of `path` has that prefix replaced by
    /// its source. Without such a mount the path stays as it is.
    pub fn find_mount_path(&self, path: &str) -> (out: String)
        ensures
            out@ == translate(self@, path@),
            forall|j: int|
                0 <= j < self@.len() && covers(path@)(#[trigger] self@[j]) ==> 0 <= chosen(
                    self@,
                    path@,
                ) <= j && dest_len(self@[chosen(self@, path@)]) >= dest_len(self@[j]),
    {
        proof {
            use_type_invariant(self);
            assert forall|j: int|
                0 <= j < self@.len() && covers(path@)(#[trigger] self@[j]) implies 0 <= chosen(
                self@,
                path@,
            ) <= j && dest_len(self@[chosen(self@, path@)]) >= dest_len(self@[j]) by {
                lemma_longest_destination_wins(self@, path@, j);
            }
        }
        let parts = split_components(path);
        let mut i: usize = 0;
        let ghost table = self@;
        while i < self.mounts.len()
            invariant
                i <= self.mounts.len(),
                table == mount_views(self.mounts@),
                table == self@,
                strs(parts@) == components(path@),
                forall|j: int| 0 <= j < i ==> !covers(path@)(#[trigger] table[j]),
                forall|j: int|
                    0 <= j < table.len() && covers(path@)(#[trigger] table[j]) ==> 0 <= chosen(
                        table,
                        path@,
                    ) <= j && dest_len(table[chosen(table, path@)]) >= dest_len(table[j]),
            decreases self.mounts.len() - i,
        {
            let info = &self.mounts[i];
            let base = split_components(info.destination.as_str());
            match strip_components(&parts, &base) {
                Some(rest) => {
                    proof {
                        assert(table[i as int] == info@);
                        assert(covers(path@)(table[i as int]));
                        lemma_first_match_is(table, covers(path@), i as int);
                    }
                    return join_components(info.source.as_str(), &rest);
                },
                None => {
                    assert(table[i as int] == info@);
                    assert(!covers(path@)(table[i as int]));
                },
            }
            i += 1;
        }
        proof {
            lemma_first_match_is(table, covers(path@), table.len() as int);
        }
        path.to_owned()
    }
}

/// Without mounts every path is translated to itself.
pub proof fn lemma_empty_table_is_identity(path: Seq<char>)
    ensures
        translate(Seq::<MountView>::empty(), path) == path,
{
}

/// In a sorted table the chosen mount has the longest destination of all
/// mounts whose destination is a prefix of the path.
pub proof fn lemma_longest_destination_wins(table: Seq<MountView>, path: Seq<char>, j: int)
    requires
        is_sorted(table),
        0 <= j < table.len(),
        covers(path)(table[j]),
    ensures
        0 <= chosen(table, path) <= j,
        covers(path)(table[chosen(table, path)]),
        dest_len(table[chosen(table, path)]) >= dest_len(table[j]),
{
    lemma_first_match(table, covers(path));
    let i = chosen(table, path);
    if i > j {
        assert(!covers(path)(table[j]));
    }
}

/// The translation of a path does not depend on the order in which the
/// mounts were given: two tables that hold the same mounts translate alike,
/// provided that no two different mounts with destinations of the same
/// length both cover the path.
pub proof fn lemma_order_of_mounts_is_irrelevant(
    a: Seq<MountView>,
    b: Seq<MountView>,
    path: Seq<char>,
)
    requires
        forall|m: MountView|
            #![trigger a.contains(m)]
            #![trigger b.contains(m)]
            a.contains(m) <==> b.contains(m),
        forall|m: MountView, n: MountView|
            a.contains(m) && a.contains(n) && covers(path)(m) && covers(path)(n) && dest_len(m)
                == dest_len(n) ==> m == n,
    ensures
        translate(sort_by_len(a), path) == translate(sort_by_len(b), path),
{
    let sa = sort_by_len(a);
    let sb = sort_by_len(b);
    lemma_sort_by_len(a);
    lemma_sort_by_len(b);
    lemma_first_match(sa, covers(path));
    lemma_first_match(sb, covers(path));
    let i = chosen(sa, path);
    let k = chosen(sb, path);
    if i < sa.len() {
        let m = sa[i];
        assert(sa.contains(m));
        assert(a.contains(m));
        assert(b.contains(m));
        assert(sb.contains(m));
        let j = choose|j: int| 0 <= j < sb.len() && sb[j] == m;
        lemma_longest_destination_wins(sb, path, j);
        let n = sb[k];
        assert(sb.contains(n));
        assert(b.contains(n));
        assert(a.contains(n));
        assert(sa.contains(n));
        let l = choose|l: int| 0 <= l < sa.len() && sa[l] == n;
        lemma_longest_destination_wins(sa, path, l);
        assert(a.contains(m) && a.contains(n));
        assert(m == n);
    } else if k < sb.len() {
        let n = sb[k];
        assert(sb.contains(n));
        assert(b.contains(n));
        assert(a.contains(n));
        assert(sa.contains(n));
        let l = choose|l: int| 0 <= l < sa.len() && sa[l] == n;
        assert(covers(path)(sa[l]));
    }
}

/// The directories on this machine that a build needs, before translation.
#[derive(Debug, Clone, PartialEq, Eq)]
pub struct HostDirectories {
    /// Cargo's home.
    pub cargo: String,
    /// Xargo's home.
    pub xargo: String,
    /// The Nix store, where there is one.
    pub nix_store: Option<String>,
}

/// The directories of one build, each as the engine's host sees it.
#[derive(Debug, Clone, PartialEq, Eq)]
pub struct Directories {
    pub cargo: String,
    pub xargo: String,
    pub target: String,
    pub nix_store: Option<String>,
    pub host_root: String,
    pub mount_root: String,
    pub mount_cwd: String,
    pub sysroot: String,
}

/// The directory that is mounted as the project: the workspace root, or
/// the current directory where that lies outside the workspace.
pub open spec fn project_root(workspace_root: Seq<char>, cwd: Seq<char>) -> Seq<char> {
    if strip_prefix(cwd, workspace_root) is Some {
        workspace_root
    } else {
        cwd
    }
}

impl Directories {
    /// Translates every directory of the build through `finder`. The Nix
    /// store is mounted under its own name and is not translated.
    pub fn create(
        finder: &MountFinder,
        metadata: &CargoMetadata,
        cwd: &str,
        sysroot: &str,
        host: &HostDirectories,
    ) -> (dirs: Directories)
        ensures
            dirs.cargo@ == translate(finder@, host.cargo@),
            dirs.xargo@ == translate(finder@, host.xargo@),
            dirs.target@ == translate(finder@, metadata.target_directory@),
            dirs.nix_store == host.nix_store,
            dirs.host_root@ == translate(finder@, project_root(metadata.workspace_root@, cwd@)),
            dirs.mount_root@ == translate(finder@, dirs.host_root@),
            dirs.mount_cwd@ == translate(finder@, cwd@),
            dirs.sysroot@ == translate(finder@, sysroot@),
    {
        let cargo = finder.find_mount_path(host.cargo.as_str());
        let xargo = finder.find_mount_path(host.xargo.as_str());
        let target = finder.find_mount_path(metadata.target_directory.as_str());
        let host_root = if path_starts_with(cwd, metadata.workspace_root.as_str()) {
            finder.find_mount_path(metadata.workspace_root.as_str())
        } else {
            finder.find_mount_path(cwd)
        };
        let mount_root = finder.find_mount_path(host_root.as_str());
        let mount_cwd = finder.find_mount_path(cwd);
        let sysroot = finder.find_mount_path(sysroot);
        Directories {
            cargo,
            xargo,
            target,
            nix_store: host.nix_store.clone(),
            host_root,
            mount_root,
            mount_cwd,
            sysroot,
        }
    }
}

} // verus!
