//! What a changelog entry is found by: numbers of issues, commits, or a
//! name.

use crate::changeset::git::{Commit, CommitMap};
use crate::changeset::pattern::{name_and_separator, split_placeholder};
use crate::changeset::util::{is_sorted_order, sorted_order, SortOrder};
use crate::errors::{Error, ErrorView};
use vstd::prelude::*;
use vstd::string::StringSliceAdditionalSpecFns;

verus! {

/// The identifier of a changelog entry.
#[derive(Debug, Clone, PartialEq, Eq)]
pub enum Identifier<'a> {
    /// Numbers of issues or pull requests.
    Number(Vec<u64>),
    /// Commits.
    Commit(Vec<Commit>),
    /// Any other name.
    Other(&'a str),
}

/// The key by which a commit is sorted: nothing for a commit that the map
/// does not know, else a number that is the larger the later the commit was
/// made.
pub open spec fn commit_key(found: Option<usize>) -> u128 {
    match found {
        Some(v) => (v + 1) as u128,
        None => 0,
    }
}

/// Whether `key` is the key of a commit with the digits `commit`: the
/// key of an entry that the map finds for it, or nothing where the map
/// knows no such commit.
pub open spec fn is_key_of(map: &CommitMap, commit: Seq<u8>, key: u128) -> bool {
    if map.knows(commit) {
        exists|j: int| #[trigger] map.finds(commit, j) && key == commit_key(Some(map.0@[j].1))
    } else {
        key == 0
    }
}

/// Whether `keys` are the keys of the commits.
pub open spec fn are_commit_keys(map: &CommitMap, commits: Seq<Commit>, keys: Seq<u128>) -> bool {
    &&& keys.len() == commits.len()
    &&& forall|i: int| 0 <= i < commits.len() ==> is_key_of(map, (#[trigger] commits[i])@, keys[i])
}

impl<'a> Identifier<'a> {
    /// Whether the identifier holds numbers.
    pub fn is_number(&self) -> (yes: bool)
        ensures
            yes == (self is Number),
    {
        matches!(self, Identifier::Number(_))
    }

    /// Whether the identifier holds commits.
    pub fn is_commit(&self) -> (yes: bool)
        ensures
            yes == (self is Commit),
    {
        matches!(self, Identifier::Commit(_))
    }

    /// Whether the identifier is another name.
    pub fn is_other(&self) -> (yes: bool)
        ensures
            yes == (self is Other),
    {
        matches!(self, Identifier::Other(_))
    }

    /// Sorts what the identifier holds: numbers by their size, commits by
    /// the time at which they were made, as `map` tells it; a name stays as
    /// it is. Values that compare alike keep their order.
    pub fn sort(&mut self, order: SortOrder, map: &CommitMap)
        ensures
            *old(self) is Other ==> *final(self) == *old(self),
            *old(self) matches Identifier::Number(before) ==> (*final(self) matches Identifier::Number(
                after,
            ) && exists|perm: Seq<usize>|
                #![trigger perm.len()]
                is_sorted_order(
                    perm,
                    Seq::new(before@.len(), |i: int| before@[i] as u128),
                    order == SortOrder::Descending,
                ) && after@ == Seq::new(before@.len(), |i: int| before@[perm[i] as int])),
            *old(self) matches Identifier::Commit(before) ==> (*final(self) matches Identifier::Commit(
                after,
            ) && exists|perm: Seq<usize>, keys: Seq<u128>|
                #![trigger perm.len(), keys.len()]
                are_commit_keys(map, before@, keys) && is_sorted_order(
                    perm,
                    keys,
                    order == SortOrder::Descending,
                ) && after@ == Seq::new(before@.len(), |i: int| before@[perm[i] as int])),
    {
        let descending = matches!(order, SortOrder::Descending);
        match self {
            Identifier::Number(nums) => {
                let mut keys: Vec<u128> = Vec::new();
                let mut i: usize = 0;
                while i < nums.len()
                    invariant
                        i <= nums@.len(),
                        keys@ == Seq::new(i as nat, |k: int| nums@[k] as u128),
                    decreases nums@.len() - i,
                {
                    keys.push(nums[i] as u128);
                    i += 1;
                    assert(keys@ =~= Seq::new(i as nat, |k: int| nums@[k] as u128));
                }
                let perm = sorted_order(&keys, descending);
                let mut sorted: Vec<u64> = Vec::new();
                let mut k: usize = 0;
                while k < perm.len()
                    invariant
                        k <= perm@.len(),
                        is_sorted_order(perm@, keys@, descending),
                        keys@.len() == nums@.len(),
                        sorted@ == Seq::new(k as nat, |j: int| nums@[perm@[j] as int]),
                    decreases perm@.len() - k,
                {
                    sorted.push(nums[perm[k]]);
                    k += 1;
                    assert(sorted@ =~= Seq::new(k as nat, |j: int| nums@[perm@[j] as int]));
                }
                let ghost before = nums@;
                *nums = sorted;
                assert(is_sorted_order(
                    perm@,
                    Seq::new(before.len(), |i: int| before[i] as u128),
                    descending,
                ));
                assert(perm@.len() == before.len());
            },
            Identifier::Commit(commits) => {
                let mut keys: Vec<u128> = Vec::new();
                let mut i: usize = 0;
                while i < commits.len()
                    invariant
                        i <= commits@.len(),
                        are_commit_keys(map, commits@.take(i as int), keys@),
                    decreases commits@.len() - i,
                {
                    let found = map.get(&commits[i]);
                    let key = match found {
                        Some(v) => v as u128 + 1,
                        None => 0,
                    };
                    let ghost old_keys = keys@;
                    keys.push(key);
                    i += 1;
                    proof {
                        let now = commits@.take(i as int);
                        assert(is_key_of(map, commits@[i - 1]@, key)) by {
                            if map.knows(commits@[i - 1]@) {
                                let j = choose|j: int|
                                    map.finds(commits@[i - 1]@, j) && found->0 == map.0@[j].1;
                                assert(map.finds(commits@[i - 1]@, j) && key == commit_key(
                                    Some(map.0@[j].1),
                                ));
                            }
                        }
                        assert forall|a: int| 0 <= a < now.len() implies is_key_of(
                            map,
                            (#[trigger] now[a])@,
                            keys@[a],
                        ) by {
                            if a < i - 1 {
                                assert(commits@.take(i - 1)[a] == now[a]);
                                assert(old_keys[a] == keys@[a]);
                            }
                        }
                    }
                }
                assert(commits@.take(commits@.len() as int) =~= commits@);
                let perm = sorted_order(&keys, descending);
                let mut sorted: Vec<Commit> = Vec::new();
                let mut k: usize = 0;
                while k < perm.len()
                    invariant
                        k <= perm@.len(),
                        is_sorted_order(perm@, keys@, descending),
                        keys@.len() == commits@.len(),
                        sorted@ == Seq::new(k as nat, |j: int| commits@[perm@[j] as int]),
                    decreases perm@.len() - k,
                {
                    sorted.push(commits[perm[k]]);
                    k += 1;
                    assert(sorted@ =~= Seq::new(k as nat, |j: int| commits@[perm@[j] as int]));
                }
                let ghost before = commits@;
                let ghost key_seq = keys@;
                *commits = sorted;
                assert(are_commit_keys(map, before, key_seq) && is_sorted_order(
                    perm@,
                    key_seq,
                    descending,
                ));
                assert(perm@.len() == before.len() && key_seq.len() == before.len());
            },
            Identifier::Other(_) => {},
        }
    }
}

/// A placeholder for an identifier: what may stand before the values,
/// what separates them, and what may stand behind them.
#[derive(Debug, Clone, PartialEq, Eq)]
#[non_exhaustive]
pub enum Placeholder<'a> {
    /// Any identifier.
    Any(Option<char>, &'a str, Option<char>),
    /// Numbers.
    Number(Option<char>, &'a str, Option<char>),
    /// Commits.
    Commit(Option<char>, &'a str, Option<char>),
    /// Another name.
    Other,
}

impl<'a> Placeholder<'a> {
    /// The placeholder that the text between two braces stands for. No
    /// name stands for a placeholder yet: every text is an error, that of
    /// its brackets where they are wrong, else that of a placeholder that
    /// is not known.
    pub fn parse(s: &'a str, default_sep: &'a str) -> (made: Result<Placeholder<'a>, Error>)
        ensures
            made is Err,
            made->Err_0@ == (match name_and_separator(s.spec_bytes()) {
                Ok(_) => ErrorView::UnsupportedPlaceholder(s@),
                Err(e) => e,
            }),
    {
        match split_placeholder(s) {
            Ok(_) => Err(Error::UnsupportedPlaceholder(s.to_owned())),
            Err(e) => Err(e),
        }
    }
}

} // verus!
