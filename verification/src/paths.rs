//! Paths as texts, taken component by component.

use vstd::prelude::*;
use vstd::string::*;

use crate::text::{
    cat3, join, joined, owned, pieces, same, split, starts_with, begins, ends, ends_with, texts,
    texts_push,
};

verus! {

/// `rel` below `base`: an absolute path stands for itself.
pub open spec fn join_path(base: Seq<char>, rel: Seq<char>) -> Seq<char> {
    if starts_with(rel, "/"@) || base.len() == 0 {
        rel
    } else if ends_with(base, "/"@) {
        base + rel
    } else {
        base + "/"@ + rel
    }
}

/// `rel` below `base`: an absolute path stands for itself.
pub fn joined_path(base: &str, rel: &str) -> (r: String)
    ensures
        r@ == join_path(base@, rel@),
{
    if begins(rel, "/") || base.is_empty() {
        owned(rel)
    } else if ends(base, "/") {
        crate::text::cat(base, rel)
    } else {
        cat3(base, "/", rel)
    }
}

/// Whether the piece at index `i`, between two slashes, is a component: neither
/// empty nor a dot, but for a dot at the start.
pub open spec fn is_component(p: Seq<Seq<char>>, i: int) -> bool {
    p[i].len() > 0 && (p[i] != "."@ || i == 0)
}

/// The components from the piece at index `i` on.
pub open spec fn components_from(p: Seq<Seq<char>>, i: int) -> Seq<Seq<char>>
    decreases p.len() - i,
{
    if i < 0 || i >= p.len() {
        Seq::empty()
    } else if is_component(p, i) {
        seq![p[i]] + components_from(p, i + 1)
    } else {
        components_from(p, i + 1)
    }
}

/// The components of a path, with a slash for the root.
pub open spec fn components(path: Seq<char>) -> Seq<Seq<char>> {
    if starts_with(path, "/"@) {
        seq!["/"@] + components_from(split(path, "/"@), 0)
    } else {
        components_from(split(path, "/"@), 0)
    }
}

/// Whether `path` is `base` or lies below it.
pub open spec fn path_within(path: Seq<char>, base: Seq<char>) -> bool {
    components(base).is_prefix_of(components(path))
}

/// The last component, where it is a name.
pub open spec fn file_name(path: Seq<char>) -> Option<Seq<char>> {
    let c = components(path);
    if c.len() > 0 && c.last() != "/"@ && c.last() != "."@ && c.last() != ".."@ {
        Some(c.last())
    } else {
        None
    }
}

/// The index of the piece, not before `i`, that is the component number `n` from
/// there, counted from zero; the number of pieces where there is none.
pub open spec fn nth_component(p: Seq<Seq<char>>, n: nat, i: int) -> int
    decreases p.len() - i,
{
    if i < 0 || i >= p.len() {
        p.len() as int
    } else if is_component(p, i) {
        if n == 0 {
            i
        } else {
            nth_component(p, (n - 1) as nat, i + 1)
        }
    } else {
        nth_component(p, n, i + 1)
    }
}

/// The index behind the last component among the first `i` pieces.
pub open spec fn components_end(p: Seq<Seq<char>>, i: int) -> int
    decreases i,
{
    if i <= 0 {
        0
    } else if is_component(p, i - 1) {
        i
    } else {
        components_end(p, i - 1)
    }
}

/// The text of a path behind the components of `base`, from where its next
/// component starts to where its last one ends.
pub open spec fn relative(path: Seq<char>, base: Seq<char>) -> Option<Seq<char>> {
    if !path_within(path, base) {
        None
    } else {
        let p = split(path, "/"@);
        let rooted = starts_with(path, "/"@);
        let taken = components(base).len();
        let end = components_end(p, p.len() as int);
        if taken == 0 {
            if rooted && end == 0 {
                Some("/"@)
            } else {
                Some(join(p.take(end), "/"@))
            }
        } else {
            let from = nth_component(
                p,
                if rooted {
                    (taken - 1) as nat
                } else {
                    taken
                },
                0,
            );
            if from < end {
                Some(join(p.subrange(from, end), "/"@))
            } else {
                Some(Seq::empty())
            }
        }
    }
}

/// Whether the piece is a component.
fn component_at(p: &Vec<String>, i: usize) -> (r: bool)
    requires
        i < p@.len(),
    ensures
        r == is_component(texts(p@), i as int),
{
    !p[i].as_str().is_empty() && (!same(p[i].as_str(), ".") || i == 0)
}

/// The pieces between the slashes of a path.
fn slash_pieces(path: &str) -> (r: Vec<String>)
    ensures
        texts(r@) == split(path@, "/"@),
{
    proof {
        reveal_strlit("/");
    }
    pieces(path, "/")
}

/// The components of a path, with a slash for the root.
pub fn components_of(path: &str) -> (r: Vec<String>)
    ensures
        texts(r@) == components(path@),
{
    broadcast use texts_push;

    let p = slash_pieces(path);
    let mut r: Vec<String> = Vec::new();
    assert(texts(r@) =~= Seq::empty());
    if begins(path, "/") {
        r.push(owned("/"));
    }
    let ghost root = texts(r@);
    assert(components(path@) =~= root + components_from(texts(p@), 0));
    let mut i: usize = 0;
    while i < p.len()
        invariant
            i <= p@.len(),
            components(path@) == texts(r@) + components_from(texts(p@), i as int),
        decreases p@.len() - i,
    {
        let ghost before = texts(r@);
        if component_at(&p, i) {
            r.push(p[i].clone());
            assert(before + (seq![texts(p@)[i as int]] + components_from(texts(p@), i + 1))
                =~= before.push(p@[i as int]@) + components_from(texts(p@), i + 1));
        }
        i += 1;
    }
    assert(texts(r@) + components_from(texts(p@), i as int) =~= texts(r@));
    r
}

/// Whether the first list of texts begins with the second.
pub fn begins_with_all(a: &Vec<String>, b: &Vec<String>) -> (r: bool)
    ensures
        r == texts(b@).is_prefix_of(texts(a@)),
{
    if b.len() > a.len() {
        return false;
    }
    let mut i: usize = 0;
    while i < b.len()
        invariant
            i <= b@.len() <= a@.len(),
            forall|j: int| 0 <= j < i ==> #[trigger] texts(a@)[j] == texts(b@)[j],
        decreases b@.len() - i,
    {
        if !same(a[i].as_str(), b[i].as_str()) {
            assert(texts(a@)[i as int] != texts(b@)[i as int]);
            assert(texts(a@).subrange(0, b@.len() as int)[i as int] == texts(a@)[i as int]);
            return false;
        }
        assert(texts(a@)[i as int] == texts(b@)[i as int]);
        i += 1;
    }
    assert(texts(b@) =~= texts(a@).subrange(0, b@.len() as int));
    true
}

/// Whether `path` is `base` or lies below it.
pub fn is_within(path: &str, base: &str) -> (r: bool)
    ensures
        r == path_within(path@, base@),
{
    begins_with_all(&components_of(path), &components_of(base))
}

/// Whether two paths have the same components.
pub fn same_path(a: &str, b: &str) -> (r: bool)
    ensures
        r == (components(a@) == components(b@)),
{
    let x = components_of(a);
    let y = components_of(b);
    if x.len() != y.len() {
        assert(texts(x@).len() != texts(y@).len());
        return false;
    }
    let r = begins_with_all(&x, &y);
    proof {
        assert(texts(x@).subrange(0, texts(y@).len() as int) =~= texts(x@));
    }
    r
}

/// The last component, where it is a name.
pub fn file_name_of(path: &str) -> (r: Option<String>)
    ensures
        match r {
            Some(n) => file_name(path@) == Some(n@),
            None => file_name(path@) is None,
        },
{
    let c = components_of(path);
    if c.len() == 0 {
        return None;
    }
    let last = c[c.len() - 1].as_str();
    assert(last@ == texts(c@).last());
    if same(last, "/") || same(last, ".") || same(last, "..") {
        None
    } else {
        Some(owned(last))
    }
}

/// The pieces from one index up to another, joined by slashes.
fn joined_pieces(p: &Vec<String>, from: usize, to: usize) -> (r: String)
    requires
        from <= to <= p@.len(),
    ensures
        r@ == join(texts(p@).subrange(from as int, to as int), "/"@),
{
    broadcast use texts_push;

    let mut part: Vec<String> = Vec::new();
    let mut i: usize = from;
    assert(texts(part@) =~= texts(p@).subrange(from as int, from as int));
    while i < to
        invariant
            from <= i <= to <= p@.len(),
            texts(part@) == texts(p@).subrange(from as int, i as int),
        decreases to - i,
    {
        part.push(p[i].clone());
        assert(texts(p@).subrange(from as int, i as int).push(p@[i as int]@) =~= texts(
            p@,
        ).subrange(from as int, i + 1));
        i += 1;
    }
    joined(&part, "/")
}

/// The index behind the last component.
fn end_of_components(p: &Vec<String>) -> (r: usize)
    ensures
        r == components_end(texts(p@), p@.len() as int),
        r <= p@.len(),
{
    let mut i: usize = p.len();
    while i > 0 && !component_at(p, i - 1)
        invariant
            i <= p@.len(),
            components_end(texts(p@), p@.len() as int) == components_end(texts(p@), i as int),
        decreases i,
    {
        i -= 1;
    }
    i
}

/// The text of a path behind the components of `base`.
pub fn relative_to(path: &str, base: &str) -> (r: Option<String>)
    ensures
        match r {
            Some(t) => relative(path@, base@) == Some(t@),
            None => relative(path@, base@) is None,
        },
{
    let b = components_of(base);
    if !begins_with_all(&components_of(path), &b) {
        return None;
    }
    let p = slash_pieces(path);
    let rooted = begins(path, "/");
    let end = end_of_components(&p);
    assert(b@.len() == components(base@).len());
    if b.len() == 0 {
        if rooted && end == 0 {
            return Some(owned("/"));
        }
        assert(texts(p@).subrange(0, end as int) =~= texts(p@).take(end as int));
        return Some(joined_pieces(&p, 0, end));
    }
    let skip: usize = if rooted {
        b.len() - 1
    } else {
        b.len()
    };
    let mut left: usize = skip;
    let mut i: usize = 0;
    while i < p.len() && (left > 0 || !component_at(&p, i))
        invariant
            i <= p@.len(),
            left <= skip,
            nth_component(texts(p@), skip as nat, 0) == nth_component(
                texts(p@),
                left as nat,
                i as int,
            ),
        decreases p@.len() - i,
    {
        if component_at(&p, i) {
            left -= 1;
        }
        i += 1;
    }
    assert(nth_component(texts(p@), skip as nat, 0) == i);
    if i < end {
        Some(joined_pieces(&p, i, end))
    } else {
        Some(String::new())
    }
}

/// A path lies within itself.
pub proof fn within_itself(path: Seq<char>)
    ensures
        path_within(path, path),
{
    assert(components(path).subrange(0, components(path).len() as int) =~= components(path));
}

/// What lies within a path lies within what that path lies within.
pub proof fn within_transitive(a: Seq<char>, b: Seq<char>, c: Seq<char>)
    requires
        path_within(a, b),
        path_within(b, c),
    ensures
        path_within(a, c),
{
    assert(components(c) =~= components(a).subrange(0, components(c).len() as int));
}

} // verus!
