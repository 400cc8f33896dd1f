//! Commits, named by their hashes, and the order in which they were made.

use crate::errors::{Error, ErrorView};
use crate::text::{lines, lines_of, strs};
use std::cmp::Ordering;
use vstd::array::array_fill_for_copy_types;
use crate::changeset::util::Utf8;
use vstd::prelude::*;
use vstd::string::StringSliceAdditionalSpecFns;
use vstd::slice::slice_subrange;
use vstd::utf8::valid_utf8;

verus! {

/// The value of a hexadecimal digit, for a byte that is one.
pub open spec fn hex_value(b: u8) -> Option<nat> {
    if 0x30 <= b <= 0x39 {
        Some((b - 0x30) as nat)
    } else if 0x61 <= b <= 0x66 {
        Some((b - 0x61 + 10) as nat)
    } else if 0x41 <= b <= 0x46 {
        Some((b - 0x41 + 10) as nat)
    } else {
        None
    }
}

/// Whether a byte is a hexadecimal digit.
pub open spec fn is_hex(b: u8) -> bool {
    hex_value(b) is Some
}

/// Whether all bytes are hexadecimal digits.
pub open spec fn all_hex(bytes: Seq<u8>) -> bool {
    forall|i: int| 0 <= i < bytes.len() ==> is_hex(#[trigger] bytes[i])
}

/// Whether bytes are the hash of a commit, in full or shortened: seven to
/// forty hexadecimal digits.
pub open spec fn is_hash(bytes: Seq<u8>) -> bool {
    7 <= bytes.len() <= 40 && all_hex(bytes)
}

/// The rank of a byte among digits: a byte that is no digit before all
/// digits, the digits by their value.
pub open spec fn rank(b: u8) -> nat {
    match hex_value(b) {
        Some(v) => v + 1,
        None => 0,
    }
}

/// The ranks of bytes.
pub open spec fn ranks(bytes: Seq<u8>) -> Seq<nat> {
    Seq::new(bytes.len(), |i: int| rank(bytes[i]))
}

/// Whether `a` stands before `b`: number by number, a prefix before what
/// it is a prefix of.
pub open spec fn lex_lt(a: Seq<nat>, b: Seq<nat>) -> bool
    decreases a.len(),
{
    if a.len() == 0 {
        b.len() > 0
    } else if b.len() == 0 {
        false
    } else if a[0] != b[0] {
        a[0] < b[0]
    } else {
        lex_lt(a.drop_first(), b.drop_first())
    }
}

/// The order is transitive.
pub proof fn lemma_lex_transitive(a: Seq<nat>, b: Seq<nat>, c: Seq<nat>)
    requires
        lex_lt(a, b),
        lex_lt(b, c),
    ensures
        lex_lt(a, c),
    decreases a.len(),
{
    if a.len() > 0 && b.len() > 0 && c.len() > 0 {
        if a[0] == b[0] && b[0] == c[0] {
            lemma_lex_transitive(a.drop_first(), b.drop_first(), c.drop_first());
        }
    }
}

/// Of two different sequences exactly one stands before the other, and
/// none stands before itself.
pub proof fn lemma_lex_total(a: Seq<nat>, b: Seq<nat>)
    ensures
        lex_lt(a, b) ==> !lex_lt(b, a) && a != b,
        !lex_lt(a, b) && !lex_lt(b, a) ==> a == b,
    decreases a.len(),
{
    if a.len() > 0 && b.len() > 0 && a[0] == b[0] {
        lemma_lex_total(a.drop_first(), b.drop_first());
        if a.drop_first() == b.drop_first() {
            assert(a =~= seq![a[0]] + a.drop_first());
            assert(b =~= seq![b[0]] + b.drop_first());
        }
        if a == b {
            assert(a.drop_first() == b.drop_first());
        }
    } else if a.len() == 0 && b.len() == 0 {
        assert(a =~= b);
    }
}

/// Whether a commit with the digits `a` stands before one with the digits
/// `b`.
pub open spec fn digits_before(a: Seq<u8>, b: Seq<u8>) -> bool {
    lex_lt(ranks(a), ranks(b))
}

/// The rank of a byte among digits.
fn rank_of(b: u8) -> (r: u8)
    ensures
        r == rank(b),
{
    if 0x30 <= b && b <= 0x39 {
        b - 0x30 + 1
    } else if 0x61 <= b && b <= 0x66 {
        b - 0x61 + 11
    } else if 0x41 <= b && b <= 0x46 {
        b - 0x41 + 11
    } else {
        0
    }
}

/// Whether the digits `a` stand before the digits `b`.
fn before(a: &[u8], b: &[u8]) -> (yes: bool)
    ensures
        yes == digits_before(a@, b@),
{
    let mut i: usize = 0;
    let ghost x = ranks(a@);
    let ghost y = ranks(b@);
    assert(x.skip(0) =~= x);
    assert(y.skip(0) =~= y);
    while i < a.len() && i < b.len() && rank_of(a[i]) == rank_of(b[i])
        invariant
            i <= a@.len(),
            i <= b@.len(),
            x == ranks(a@),
            y == ranks(b@),
            lex_lt(x, y) == lex_lt(x.skip(i as int), y.skip(i as int)),
        decreases a@.len() - i,
    {
        proof {
            let u = x.skip(i as int);
            let v = y.skip(i as int);
            assert(u[0] == x[i as int]);
            assert(v[0] == y[i as int]);
            assert(u.drop_first() =~= x.skip(i + 1));
            assert(v.drop_first() =~= y.skip(i + 1));
        }
        i += 1;
    }
    proof {
        let u = x.skip(i as int);
        let v = y.skip(i as int);
        if i < a@.len() {
            assert(u[0] == x[i as int]);
        }
        if i < b@.len() {
            assert(v[0] == y[i as int]);
        }
    }
    if i == a.len() {
        i < b.len()
    } else if i == b.len() {
        false
    } else {
        rank_of(a[i]) < rank_of(b[i])
    }
}

/// Whether two runs of bytes are the same.
fn same_bytes(a: &[u8], b: &[u8]) -> (yes: bool)
    ensures
        yes == (a@ == b@),
{
    if a.len() != b.len() {
        return false;
    }
    let mut i: usize = 0;
    while i < a.len()
        invariant
            i <= a@.len(),
            a@.len() == b@.len(),
            forall|j: int| 0 <= j < i ==> a@[j] == b@[j],
        decreases a@.len() - i,
    {
        if a[i] != b[i] {
            return false;
        }
        i += 1;
    }
    assert(a@ =~= b@);
    true
}

/// A commit, named by the digits of its hash or by the first of them.
#[derive(Debug, Clone, Copy)]
pub struct Commit([u8; 40], usize);

impl View for Commit {
    type V = Seq<u8>;

    /// The digits of the commit.
    closed spec fn view(&self) -> Seq<u8> {
        self.0@.take(self.1 as int)
    }
}

impl Commit {
    #[verifier::type_invariant]
    spec fn wf(self) -> bool {
        self.1 <= 40
    }

    /// The commit with the first `length` of the digits in `buffer`; none
    /// where `length` is more than forty.
    pub fn new(buffer: [u8; 40], length: usize) -> (made: Option<Commit>)
        ensures
            made is Some <==> length <= 40,
            made is Some ==> made->0@ == buffer@.take(length as int),
    {
        if length <= 40 {
            Some(Commit(buffer, length))
        } else {
            None
        }
    }

    /// The commit with the hash `s`: seven to forty hexadecimal digits.
    /// Any other text is an error that keeps the text.
    pub fn from_hex(s: &str) -> (made: Result<Commit, Error>)
        ensures
            is_hash(s.spec_bytes()) <==> made is Ok,
            made is Ok ==> made->Ok_0@ == s.spec_bytes(),
            made is Err ==> made->Err_0@ == ErrorView::InvalidHash(s@),
    {
        let bytes = s.as_bytes();
        let length = bytes.len();
        if length < 7 || length > 40 {
            return Err(Error::InvalidHash(s.to_owned()));
        }
        let mut buffer: [u8; 40] = array_fill_for_copy_types(0u8);
        let mut i: usize = 0;
        while i < length
            invariant
                i <= length <= 40,
                length == bytes@.len(),
                bytes@ == s.spec_bytes(),
                forall|j: int| 0 <= j < i ==> buffer@[j] == bytes@[j] && is_hex(bytes@[j]),
            decreases length - i,
        {
            if rank_of(bytes[i]) == 0 {
                assert(!is_hex(s.spec_bytes()[i as int]));
                return Err(Error::InvalidHash(s.to_owned()));
            }
            buffer.set(i, bytes[i]);
            i += 1;
        }
        assert(buffer@.take(length as int) =~= bytes@);
        Ok(Commit(buffer, length))
    }

    /// The digits of the commit.
    pub fn as_bytes(&self) -> (bytes: &[u8])
        ensures
            bytes@ == self@,
            bytes@.len() <= 40,
    {
        proof {
            use_type_invariant(self);
        }
        let all = self.0.as_slice();
        let bytes = slice_subrange(all, 0, self.1);
        assert(bytes@ =~= self.0@.take(self.1 as int));
        bytes
    }

    /// The digits of the commit as text.
    pub fn to_hex(&self) -> (text: Result<&str, Error>)
        ensures
            text is Ok <==> valid_utf8(self@),
            text is Ok ==> text->Ok_0.spec_bytes() == self@,
            text is Err ==> text->Err_0 == Error::NotUtf8,
    {
        self.as_bytes().to_utf8()
    }

    /// The commit named by its first `length` digits; none where it has
    /// fewer.
    pub fn short_hash(&self, length: usize) -> (made: Option<Commit>)
        ensures
            made is Some <==> length <= self@.len(),
            made is Some ==> made->0@ == self@.take(length as int),
    {
        proof {
            use_type_invariant(self);
        }
        if length <= self.1 {
            let made = Commit(self.0, length);
            assert(made@ =~= self@.take(length as int));
            Some(made)
        } else {
            None
        }
    }

    /// The last of all commits whose hash begins with the digits of this
    /// one: the digits, filled up to forty with the highest digit.
    pub fn max_long_hash(&self) -> (made: Commit)
        ensures
            made@ == self@ + Seq::new((40 - self@.len()) as nat, |i: int| 0x66u8),
    {
        proof {
            use_type_invariant(self);
        }
        let mut buffer = self.0;
        let mut i: usize = self.1;
        while i < 40
            invariant
                self.1 <= i <= 40,
                forall|j: int| 0 <= j < self.1 ==> buffer@[j] == self.0@[j],
                forall|j: int| self.1 <= j < i ==> buffer@[j] == 0x66u8,
            decreases 40 - i,
        {
            buffer.set(i, 0x66);
            i += 1;
        }
        let made = Commit(buffer, 40);
        assert(made@ =~= self@ + Seq::new((40 - self@.len()) as nat, |i: int| 0x66u8));
        made
    }

    /// The value of each digit of the commit; nothing for a byte that is
    /// no digit.
    pub fn to_digits(&self) -> (digits: Vec<Option<u32>>)
        ensures
            digits@.len() == self@.len(),
            forall|i: int|
                0 <= i < digits@.len() ==> (match #[trigger] digits@[i] {
                    Some(v) => hex_value(self@[i]) == Some(v as nat),
                    None => hex_value(self@[i]) is None,
                }),
    {
        let bytes = self.as_bytes();
        let mut digits: Vec<Option<u32>> = Vec::new();
        let mut i: usize = 0;
        while i < bytes.len()
            invariant
                i <= bytes@.len(),
                bytes@ == self@,
                digits@.len() == i,
                forall|k: int|
                    0 <= k < i ==> (match #[trigger] digits@[k] {
                        Some(v) => hex_value(self@[k]) == Some(v as nat),
                        None => hex_value(self@[k]) is None,
                    }),
            decreases bytes@.len() - i,
        {
            let r = rank_of(bytes[i]);
            if r == 0 {
                digits.push(None);
            } else {
                digits.push(Some(digit_value(r)));
            }
            i += 1;
        }
        digits
    }

    /// Whether this commit stands before `other`, digit by digit.
    pub fn precedes(&self, other: &Commit) -> (yes: bool)
        ensures
            yes == digits_before(self@, other@),
    {
        before(self.as_bytes(), other.as_bytes())
    }

    /// Whether this commit has the same digits as `other`.
    pub fn same(&self, other: &Commit) -> (yes: bool)
        ensures
            yes == (self@ == other@),
    {
        same_bytes(self.as_bytes(), other.as_bytes())
    }
}

/// The value of a digit of the rank `r`.
fn digit_value(r: u8) -> (v: u32)
    requires
        1 <= r <= 16,
    ensures
        v == r - 1,
{
    (r - 1) as u32
}

impl PartialEq for Commit {
    fn eq(&self, other: &Commit) -> (yes: bool) {
        self.same(other)
    }
}

impl Eq for Commit {

}

impl vstd::std_specs::cmp::PartialEqSpecImpl for Commit {
    open spec fn obeys_eq_spec() -> bool {
        true
    }

    open spec fn eq_spec(&self, other: &Commit) -> bool {
        self@ == other@
    }
}

/// The commits whose hashes stand on the lines of a text, one on each. A
/// line that is no hash is an error.
pub fn parse_commits(out: &str) -> (made: Result<Vec<Commit>, Error>)
    ensures
        made is Ok ==> made->Ok_0@.len() == lines(out@).len() && forall|i: int|
            0 <= i < lines(out@).len() ==> (#[trigger] made->Ok_0@[i])@ == vstd::utf8::encode_utf8(
                lines(out@)[i],
            ),
        made is Ok <==> forall|i: int|
            0 <= i < lines(out@).len() ==> is_hash(
                vstd::utf8::encode_utf8(#[trigger] lines(out@)[i]),
            ),
        made is Err ==> exists|i: int|
            #![trigger lines(out@)[i]]
            0 <= i < lines(out@).len() && !is_hash(vstd::utf8::encode_utf8(lines(out@)[i])) && (
            forall|j: int|
                0 <= j < i ==> is_hash(vstd::utf8::encode_utf8(#[trigger] lines(out@)[j])))
                && made->Err_0@ == ErrorView::InvalidHash(lines(out@)[i]),
{
    let all = lines_of(out);
    let mut commits: Vec<Commit> = Vec::new();
    let mut i: usize = 0;
    while i < all.len()
        invariant
            i <= all.len(),
            strs(all@) == lines(out@),
            commits@.len() == i,
            forall|k: int|
                0 <= k < i ==> (#[trigger] commits@[k])@ == vstd::utf8::encode_utf8(lines(out@)[k]),
            forall|k: int|
                0 <= k < i ==> is_hash(vstd::utf8::encode_utf8(#[trigger] lines(out@)[k])),
        decreases all.len() - i,
    {
        assert(all@[i as int]@ == strs(all@)[i as int]);
        match Commit::from_hex(all[i].as_str()) {
            Ok(commit) => {
                commits.push(commit);
            },
            Err(e) => {
                assert(!is_hash(vstd::utf8::encode_utf8(lines(out@)[i as int])));
                return Err(e);
            },
        }
        i += 1;
    }
    Ok(commits)
}

/// The commits of a repository, each with a number that is the larger the
/// later the commit was made.
#[derive(Debug, Clone, PartialEq, Eq)]
pub struct CommitMap(pub Vec<(Commit, usize)>);

/// Whether the digits `key` lie between the digits `low` and `high`, both
/// counted in.
pub open spec fn in_range(key: Seq<u8>, low: Seq<u8>, high: Seq<u8>) -> bool {
    !digits_before(key, low) && !digits_before(high, key)
}

/// The highest digits that begin with `digits`.
pub open spec fn filled(digits: Seq<u8>) -> Seq<u8> {
    digits + Seq::new((40 - digits.len()) as nat, |i: int| 0x66u8)
}

impl CommitMap {
    /// Whether the entry `i` is the one that is found for `commit`: its
    /// commit lies in the range of `commit`; no commit in the range stands
    /// before it; and of several entries with such a commit it is the last.
    pub open spec fn finds(&self, commit: Seq<u8>, i: int) -> bool {
        &&& 0 <= i < self.0@.len()
        &&& in_range(self.0@[i].0@, commit, filled(commit))
        &&& forall|j: int|
            0 <= j < self.0@.len() && in_range(
                (#[trigger] self.0@[j]).0@,
                commit,
                filled(commit),
            ) ==> !digits_before(self.0@[j].0@, self.0@[i].0@) && (j > i ==> digits_before(
                self.0@[i].0@,
                self.0@[j].0@,
            ))
    }

    /// Whether any commit of the map lies in the range of `commit`: from
    /// its digits to the highest digits that begin with them.
    pub open spec fn knows(&self, commit: Seq<u8>) -> bool {
        exists|i: int|
            0 <= i < self.0@.len() && in_range((#[trigger] self.0@[i]).0@, commit, filled(commit))
    }

    /// The number of the first commit, in the order of digits, that lies
    /// in the range of `commit`. So a shortened hash finds the commit whose
    /// hash it begins.
    pub fn get(&self, commit: &Commit) -> (found: Option<usize>)
        ensures
            found is Some <==> self.knows(commit@),
            found is Some ==> exists|i: int| self.finds(commit@, i) && found->0 == self.0@[i].1,
    {
        let max = commit.max_long_hash();
        let low = commit.as_bytes();
        let high = max.as_bytes();
        let ghost lo = commit@;
        let ghost hi = filled(commit@);
        let mut best: Option<usize> = None;
        let mut j: usize = 0;
        while j < self.0.len()
            invariant
                j <= self.0@.len(),
                low@ == lo,
                high@ == hi,
                lo == commit@,
                hi == filled(commit@),
                best is None ==> forall|k: int|
                    0 <= k < j ==> !in_range((#[trigger] self.0@[k]).0@, lo, hi),
                best is Some ==> {
                    let i = best->0 as int;
                    &&& 0 <= i < j
                    &&& in_range(self.0@[i].0@, lo, hi)
                    &&& forall|k: int|
                        0 <= k < j && in_range((#[trigger] self.0@[k]).0@, lo, hi)
                            ==> !digits_before(self.0@[k].0@, self.0@[i].0@) && (k > i
                            ==> digits_before(self.0@[i].0@, self.0@[k].0@))
                },
            decreases self.0@.len() - j,
        {
            let key = self.0[j].0.as_bytes();
            if !before(key, low) && !before(high, key) {
                match best {
                    None => {
                        proof {
                            lemma_lex_total(ranks(key@), ranks(key@));
                        }
                        best = Some(j);
                    },
                    Some(i) => {
                        let old_key = self.0[i].0.as_bytes();
                        if !before(old_key, key) {
                            proof {
                                let a = ranks(key@);
                                let b = ranks(old_key@);
                                lemma_lex_total(a, b);
                                lemma_lex_total(a, a);
                                assert forall|k: int|
                                    0 <= k < j + 1 && in_range(
                                        (#[trigger] self.0@[k]).0@,
                                        lo,
                                        hi,
                                    ) implies !digits_before(self.0@[k].0@, key@) && (k > j
                                    ==> digits_before(key@, self.0@[k].0@)) by {
                                    if k < j {
                                        let c = ranks(self.0@[k].0@);
                                        if lex_lt(c, a) {
                                            if lex_lt(a, b) {
                                                lemma_lex_transitive(c, a, b);
                                            }
                                        }
                                    }
                                }
                            }
                            best = Some(j);
                        } else {
                            proof {
                                let a = ranks(key@);
                                let b = ranks(old_key@);
                                lemma_lex_total(b, a);
                            }
                        }
                    },
                }
            }
            j += 1;
        }
        match best {
            Some(i) => {
                assert(self.finds(commit@, i as int));
                Some(self.0[i].1)
            },
            None => None,
        }
    }

    /// Whether any commit of the map lies in the range of `commit`.
    pub fn contains_key(&self, commit: &Commit) -> (yes: bool)
        ensures
            yes == self.knows(commit@),
    {
        self.get(commit).is_some()
    }
}

/// The map of commits that are listed latest first: the later a commit
/// was made, the larger its number.
pub fn get_commit_map(commits: &Vec<Commit>) -> (map: CommitMap)
    ensures
        map.0@.len() == commits@.len(),
        forall|i: int|
            0 <= i < commits@.len() ==> (#[trigger] map.0@[i]).0@ == commits@[i]@ && map.0@[i].1
                == usize::MAX - i,
{
    let mut entries: Vec<(Commit, usize)> = Vec::new();
    let mut i: usize = 0;
    while i < commits.len()
        invariant
            i <= commits@.len(),
            entries@.len() == i,
            forall|k: int|
                0 <= k < i ==> (#[trigger] entries@[k]).0@ == commits@[k]@ && entries@[k].1
                    == usize::MAX - k,
        decreases commits@.len() - i,
    {
        entries.push((commits[i], usize::MAX - i));
        i += 1;
    }
    CommitMap(entries)
}

/// How two optional numbers compare: nothing before any number, numbers
/// by their size.
pub open spec fn compare_found(x: Option<usize>, y: Option<usize>) -> Ordering {
    match (x, y) {
        (None, None) => Ordering::Equal,
        (None, Some(_)) => Ordering::Less,
        (Some(_), None) => Ordering::Greater,
        (Some(a), Some(b)) => if a < b {
            Ordering::Less
        } else if a == b {
            Ordering::Equal
        } else {
            Ordering::Greater
        },
    }
}

/// How two commits compare by the time at which they were made: the
/// earlier before the later, and a commit that the map does not know before
/// all that it knows.
pub fn sort_by(map: &CommitMap, x: &Commit, y: &Commit) -> (out: Ordering)
    ensures
        exists|a: Option<usize>, b: Option<usize>|
            out == compare_found(a, b) && (a is Some <==> map.knows(x@)) && (b is Some
                <==> map.knows(y@)) && (a is Some ==> exists|i: int|
                map.finds(x@, i) && a->0 == map.0@[i].1) && (b is Some ==> exists|i: int|
                map.finds(y@, i) && b->0 == map.0@[i].1),
{
    let a = map.get(x);
    let b = map.get(y);
    let out = match (a, b) {
        (None, None) => Ordering::Equal,
        (None, Some(_)) => Ordering::Less,
        (Some(_), None) => Ordering::Greater,
        (Some(p), Some(q)) => {
            if p < q {
                Ordering::Less
            } else if p == q {
                Ordering::Equal
            } else {
                Ordering::Greater
            }
        },
    };
    assert(out == compare_found(a, b));
    out
}

} // verus!
