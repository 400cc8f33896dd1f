//! Paths as the container engine sees them: text in which `/` separates the
//! names.
//!
//! A path stands for its components. A leading `/` is a component of its
//! own, the root; empty names and the name `.` are never components, so
//! `/a//b/./` and `/a/b` have the same components.

use crate::text::{chars_of, find_char_from, first_match, is_char, lemma_strs_push, string_of_range, strs};
use vstd::prelude::*;

verus! {

/// Whether the path begins at the root.
pub open spec fn is_absolute(p: Seq<char>) -> bool {
    p.len() > 0 && p[0] == '/'
}

/// The component that stands for the root.
pub open spec fn root() -> Seq<char> {
    seq!['/']
}

/// Whether a name between two separators counts as a component.
pub open spec fn is_name(part: Seq<char>) -> bool {
    part.len() > 0 && part != seq!['.']
}

/// The names of a path, in order, without the root.
pub open spec fn names(p: Seq<char>) -> Seq<Seq<char>>
    decreases p.len(),
{
    let i = first_match(p, is_char('/'));
    let head = p.subrange(0, if 0 <= i <= p.len() { i } else { 0 });
    let tail = if 0 <= i < p.len() {
        names(p.skip(i + 1))
    } else {
        Seq::empty()
    };
    if is_name(head) {
        seq![head] + tail
    } else {
        tail
    }
}

/// The components of a path: the root, if the path is absolute, then its
/// names.
pub open spec fn components(p: Seq<char>) -> Seq<Seq<char>> {
    if is_absolute(p) {
        seq![root()] + names(p)
    } else {
        names(p)
    }
}

/// Two paths name the same place when their components agree.
pub open spec fn same_path(a: Seq<char>, b: Seq<char>) -> bool {
    components(a) == components(b)
}

/// The components of `path` that follow those of `base`, where `path`
/// begins with all components of `base`.
pub open spec fn strip_prefix(path: Seq<char>, base: Seq<char>) -> Option<Seq<Seq<char>>> {
    let pc = components(path);
    let bc = components(base);
    if bc.is_prefix_of(pc) {
        Some(pc.skip(bc.len() as int))
    } else {
        None
    }
}

/// `base` with one more component. The root replaces what was there; a name
/// is set behind a separator unless `base` is empty or ends in one.
pub open spec fn push_component(base: Seq<char>, part: Seq<char>) -> Seq<char> {
    if part == root() {
        part
    } else if base.len() == 0 || base.last() == '/' {
        base + part
    } else {
        base + seq!['/'] + part
    }
}

/// `base` with all of `parts` pushed, in order.
pub open spec fn join(base: Seq<char>, parts: Seq<Seq<char>>) -> Seq<char>
    decreases parts.len(),
{
    if parts.len() == 0 {
        base
    } else {
        push_component(join(base, parts.drop_last()), parts.last())
    }
}

/// The path one component shorter, where the path has a component besides
/// the root.
pub open spec fn parent(p: Seq<char>) -> Option<Seq<char>> {
    let c = components(p);
    if c.len() == 0 || c == seq![root()] {
        None
    } else {
        Some(join(Seq::empty(), c.drop_last()))
    }
}

/// The components of `path`.
pub fn split_components(path: &str) -> (parts: Vec<String>)
    ensures
        strs(parts@) == components(path@),
{
    let chars = chars_of(path);
    let mut parts: Vec<String> = Vec::new();
    if chars.len() > 0 && chars[0] == '/' {
        let r = string_of_range(&chars, 0, 1);
        assert(r@ =~= root());
        proof {
            lemma_strs_push(parts@, r);
        }
        parts.push(r);
    }
    let ghost lead = strs(parts@);
    assert(lead =~= if is_absolute(chars@) {
        seq![root()]
    } else {
        Seq::empty()
    });
    let mut start: usize = 0;
    let mut done = false;
    assert(chars@.skip(0) =~= chars@);
    while !done
        invariant
            start <= chars.len(),
            lead + names(chars@) == strs(parts@) + (if done {
                Seq::<Seq<char>>::empty()
            } else {
                names(chars@.skip(start as int))
            }),
        decreases chars.len() - start + (if done { 0int } else { 1int }),
    {
        let at = find_char_from(&chars, start, '/');
        let ghost rest = chars@.skip(start as int);
        let ghost before = strs(parts@);
        proof {
            assert(rest =~= chars@.subrange(start as int, chars.len() as int));
            assert(first_match(rest, is_char('/')) == at - start);
            assert(rest.subrange(0, at - start) =~= chars@.subrange(start as int, at as int));
            if at < chars.len() {
                assert(rest.skip(at - start + 1) =~= chars@.skip(at + 1));
            }
        }
        let single_dot = at - start == 1 && chars[start] == '.';
        if at > start && !single_dot {
            let part = string_of_range(&chars, start, at);
            proof {
                lemma_strs_push(parts@, part);
                assert(part@[0] == chars@[start as int]);
                assert(is_name(part@)) by {
                    if part@ == seq!['.'] {
                        assert(part@.len() == 1);
                        assert(seq!['.'][0] == '.');
                    }
                }
            }
            parts.push(part);
        } else {
            proof {
                let head = chars@.subrange(start as int, at as int);
                if at > start {
                    assert(head =~= seq!['.']);
                }
                assert(!is_name(head));
            }
        }
        if at == chars.len() {
            done = true;
            assert(lead + names(chars@) =~= strs(parts@) + Seq::<Seq<char>>::empty());
        } else {
            start = at + 1;
            assert(lead + names(chars@) =~= strs(parts@) + names(chars@.skip(start as int)));
        }
    }
    assert(strs(parts@) + Seq::<Seq<char>>::empty() =~= strs(parts@));
    assert(chars@ == path@);
    parts
}

/// The components of `path` behind those of `base`, where `base` is a
/// prefix of `path`, component by component.
pub fn strip_components(path: &Vec<String>, base: &Vec<String>) -> (rest: Option<Vec<String>>)
    ensures
        strs(base@).is_prefix_of(strs(path@)) <==> rest is Some,
        rest is Some ==> strs(rest->0@) == strs(path@).skip(base.len() as int),
{
    if base.len() > path.len() {
        return None;
    }
    let mut i: usize = 0;
    while i < base.len()
        invariant
            i <= base.len() <= path.len(),
            forall|j: int| 0 <= j < i ==> strs(base@)[j] == strs(path@)[j],
        decreases base.len() - i,
    {
        if path[i] != base[i] {
            assert(strs(base@)[i as int] != strs(path@)[i as int]);
            return None;
        }
        i += 1;
    }
    assert(strs(path@).subrange(0, base.len() as int) =~= strs(base@));
    let mut rest: Vec<String> = Vec::new();
    let mut k: usize = base.len();
    while k < path.len()
        invariant
            base.len() <= k <= path.len(),
            strs(rest@) == strs(path@).subrange(base.len() as int, k as int),
        decreases path.len() - k,
    {
        let item = path[k].clone();
        proof {
            lemma_strs_push(rest@, item);
        }
        rest.push(item);
        k += 1;
        assert(strs(rest@) =~= strs(path@).subrange(base.len() as int, k as int));
    }
    assert(strs(path@).subrange(base.len() as int, path.len() as int) =~= strs(path@).skip(
        base.len() as int,
    ));
    Some(rest)
}

/// `base` with all of `parts` pushed, in order.
pub fn join_components(base: &str, parts: &Vec<String>) -> (out: String)
    ensures
        out@ == join(base@, strs(parts@)),
{
    let mut out = base.to_owned();
    let mut i: usize = 0;
    assert(strs(parts@).take(0) =~= Seq::empty());
    while i < parts.len()
        invariant
            i <= parts.len(),
            out@ == join(base@, strs(parts@).take(i as int)),
        decreases parts.len() - i,
    {
        let ghost before = strs(parts@).take(i as int);
        let part = &parts[i];
        let so_far = chars_of(out.as_str());
        if str_is_root(part) {
            out = part.clone();
        } else if so_far.len() == 0 || so_far[so_far.len() - 1] == '/' {
            out.append(part.as_str());
        } else {
            out.append("/");
            proof {
                reveal_strlit("/");
                assert("/"@ =~= seq!['/']);
            }
            out.append(part.as_str());
        }
        i += 1;
        proof {
            let now = strs(parts@).take(i as int);
            assert(now.drop_last() =~= before);
            assert(now.last() == part@);
        }
    }
    assert(strs(parts@).take(parts.len() as int) =~= strs(parts@));
    out
}

/// Whether `part` is the root component.
pub fn str_is_root(part: &String) -> (yes: bool)
    ensures
        yes == (part@ == root()),
{
    let c = chars_of(part.as_str());
    let yes = c.len() == 1 && c[0] == '/';
    proof {
        if yes {
            assert(part@ =~= root());
        } else if part@ == root() {
            assert(root().len() == 1 && root()[0] == '/');
        }
    }
    yes
}

/// The path one component shorter, where the path has a component besides
/// the root.
pub fn parent_of(path: &str) -> (up: Option<String>)
    ensures
        up is Some <==> parent(path@) is Some,
        up is Some ==> up->0@ == parent(path@)->0,
{
    let mut parts = split_components(path);
    if parts.len() == 0 {
        return None;
    }
    if parts.len() == 1 && str_is_root(&parts[0]) {
        assert(components(path@) =~= seq![root()]);
        return None;
    }
    proof {
        if components(path@) == seq![root()] {
            assert(seq![root()].len() == 1);
            assert(seq![root()][0] == root());
        }
    }
    let ghost all = strs(parts@);
    parts.pop();
    assert(strs(parts@) =~= all.drop_last());
    let up = join_components("", &parts);
    proof {
        reveal_strlit("");
        assert(""@ =~= Seq::<char>::empty());
    }
    Some(up)
}

/// Whether `path` begins with all components of `base`.
pub fn path_starts_with(path: &str, base: &str) -> (yes: bool)
    ensures
        yes == (strip_prefix(path@, base@) is Some),
{
    let p = split_components(path);
    let b = split_components(base);
    strip_components(&p, &b).is_some()
}

/// Whether two paths have the same components.
pub fn path_eq(a: &str, b: &str) -> (yes: bool)
    ensures
        yes == same_path(a@, b@),
{
    let x = split_components(a);
    let y = split_components(b);
    if x.len() != y.len() {
        return false;
    }
    let same = strip_components(&x, &y).is_some();
    proof {
        if same {
            assert(strs(x@).subrange(0, x.len() as int) =~= strs(x@));
        } else if strs(x@) == strs(y@) {
            assert(strs(y@).subrange(0, y.len() as int) =~= strs(y@));
        }
    }
    same
}

/// `base` with one more component.
pub fn push_path(base: &str, part: &str) -> (out: String)
    ensures
        out@ == push_component(base@, part@),
{
    let so_far = chars_of(base);
    let owned = part.to_owned();
    if str_is_root(&owned) {
        owned
    } else if so_far.len() == 0 || so_far[so_far.len() - 1] == '/' {
        crate::text::concat(base, part)
    } else {
        proof {
            reveal_strlit("/");
            assert("/"@ =~= seq!['/']);
        }
        crate::text::concat3(base, "/", part)
    }
}

} // verus!
