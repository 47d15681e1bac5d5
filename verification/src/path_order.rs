//! Paths in order, component by component.

use vstd::prelude::*;
use vstd::string::*;

use crate::paths::{components, components_of, same_path};
use crate::text::{
    precedes, same, text_lt, text_lt_irreflexive, text_lt_total, text_lt_transitive, texts,
};

verus! {

/// The place of a kind of component: the root comes first, then a dot, then two dots,
/// then names.
pub open spec fn rank(c: Seq<char>) -> int {
    if c == "/"@ {
        0
    } else if c == "."@ {
        1
    } else if c == ".."@ {
        2
    } else {
        3
    }
}

/// Whether the component `a` comes before `b`.
pub open spec fn component_lt(a: Seq<char>, b: Seq<char>) -> bool {
    rank(a) < rank(b) || (rank(a) == 3 && rank(b) == 3 && text_lt(a, b))
}

/// Whether the components `a` come before `b`: by the first in which they differ.
pub open spec fn components_lt(a: Seq<Seq<char>>, b: Seq<Seq<char>>) -> bool
    decreases a.len(),
{
    if b.len() == 0 {
        false
    } else if a.len() == 0 {
        true
    } else if a[0] == b[0] {
        components_lt(a.drop_first(), b.drop_first())
    } else {
        component_lt(a[0], b[0])
    }
}

/// Whether the path `a` comes before `b`.
pub open spec fn path_lt(a: Seq<char>, b: Seq<char>) -> bool {
    components_lt(components(a), components(b))
}

fn rank_of(c: &str) -> (r: u8)
    ensures
        r == rank(c@),
{
    if same(c, "/") {
        0
    } else if same(c, ".") {
        1
    } else if same(c, "..") {
        2
    } else {
        3
    }
}

/// Whether the path `a` comes before `b`.
pub fn path_precedes(a: &str, b: &str) -> (r: bool)
    ensures
        r == path_lt(a@, b@),
{
    let x = components_of(a);
    let y = components_of(b);
    let ghost xs = texts(x@);
    let ghost ys = texts(y@);
    let mut i: usize = 0;
    assert(xs.skip(0) =~= xs);
    assert(ys.skip(0) =~= ys);
    loop
        invariant
            xs == texts(x@),
            ys == texts(y@),
            i <= x@.len(),
            i <= y@.len(),
            path_lt(a@, b@) == components_lt(xs.skip(i as int), ys.skip(i as int)),
        decreases x@.len() - i,
    {
        if i == y.len() {
            return false;
        }
        if i == x.len() {
            return true;
        }
        assert(xs.skip(i as int)[0] == x@[i as int]@);
        assert(ys.skip(i as int)[0] == y@[i as int]@);
        let c = x[i].as_str();
        let d = y[i].as_str();
        if !same(c, d) {
            let m: u8 = rank_of(c);
            let n: u8 = rank_of(d);
            return m < n || (m == 3 && n == 3 && precedes(c, d));
        }
        assert(xs.skip(i as int).drop_first() =~= xs.skip(i + 1));
        assert(ys.skip(i as int).drop_first() =~= ys.skip(i + 1));
        i += 1;
    }
}

/// The paths with one more among them, in order, each once.
pub open spec fn path_inserted(s: Seq<Seq<char>>, x: Seq<char>) -> Seq<Seq<char>>
    decreases s.len(),
{
    if s.len() == 0 {
        seq![x]
    } else if components(s[0]) == components(x) {
        s
    } else if path_lt(x, s[0]) {
        seq![x] + s
    } else {
        seq![s[0]] + path_inserted(s.drop_first(), x)
    }
}

/// The paths in order, of those with the same components the first.
pub open spec fn paths_sorted(s: Seq<Seq<char>>) -> Seq<Seq<char>>
    decreases s.len(),
{
    if s.len() == 0 {
        s
    } else {
        path_inserted(paths_sorted(s.drop_last()), s.last())
    }
}

fn insert_path(v: &mut Vec<String>, x: String)
    ensures
        texts(final(v)@) == path_inserted(texts(old(v)@), x@),
{
    let ghost all = texts(v@);
    let mut i: usize = 0;
    assert(all.skip(0) =~= all);
    assert(all.take(0) + path_inserted(all.skip(0), x@) =~= path_inserted(all, x@));
    while i < v.len()
        invariant
            i <= v@.len(),
            *v == *old(v),
            all == texts(v@),
            path_inserted(all, x@) == all.take(i as int) + path_inserted(all.skip(i as int), x@),
        decreases v@.len() - i,
    {
        let ghost rest = all.skip(i as int);
        assert(rest[0] == v@[i as int]@);
        if same_path(v[i].as_str(), x.as_str()) {
            assert(all.take(i as int) + rest =~= all);
            return;
        }
        if path_precedes(x.as_str(), v[i].as_str()) {
            let ghost xv = x@;
            v.insert(i, x);
            assert(texts(v@) =~= all.take(i as int) + (seq![xv] + rest));
            return;
        }
        assert(rest.drop_first() =~= all.skip(i + 1));
        assert(all.take(i as int) + (seq![rest[0]] + path_inserted(rest.drop_first(), x@))
            =~= all.take(i + 1) + path_inserted(all.skip(i + 1), x@));
        i += 1;
    }
    let ghost xv = x@;
    assert(all.skip(i as int).len() == 0);
    v.push(x);
    assert(texts(v@) =~= all.take(i as int) + seq![xv]);
}

/// The paths in order, of those with the same components the first.
pub fn sort_paths(v: Vec<String>) -> (r: Vec<String>)
    ensures
        texts(r@) == paths_sorted(texts(v@)),
{
    let ghost all = texts(v@);
    let mut r: Vec<String> = Vec::new();
    let mut i: usize = 0;
    assert(texts(r@) =~= paths_sorted(all.take(0)));
    while i < v.len()
        invariant
            i <= v@.len(),
            all == texts(v@),
            texts(r@) == paths_sorted(all.take(i as int)),
        decreases v@.len() - i,
    {
        assert(all.take(i + 1).drop_last() =~= all.take(i as int));
        assert(all.take(i + 1).last() == v@[i as int]@);
        insert_path(&mut r, v[i].clone());
        i += 1;
    }
    assert(all.take(i as int) =~= all);
    r
}

proof fn component_lt_total(a: Seq<char>, b: Seq<char>)
    ensures
        a == b || component_lt(a, b) || component_lt(b, a),
{
    text_lt_total(a, b);
}

proof fn component_lt_transitive(a: Seq<char>, b: Seq<char>, c: Seq<char>)
    requires
        component_lt(a, b),
        component_lt(b, c),
    ensures
        component_lt(a, c),
        a != c,
{
    if rank(a) == 3 && rank(b) == 3 && rank(c) == 3 {
        text_lt_transitive(a, b, c);
        text_lt_irreflexive(a);
    }
}

/// The order of paths is transitive.
pub proof fn components_lt_transitive(a: Seq<Seq<char>>, b: Seq<Seq<char>>, c: Seq<Seq<char>>)
    requires
        components_lt(a, b),
        components_lt(b, c),
    ensures
        components_lt(a, c),
    decreases a.len(),
{
    if a.len() > 0 {
        if a[0] == b[0] && b[0] == c[0] {
            components_lt_transitive(a.drop_first(), b.drop_first(), c.drop_first());
        } else if a[0] != b[0] && b[0] != c[0] {
            component_lt_transitive(a[0], b[0], c[0]);
        }
    }
}

/// Of two paths with distinct components one comes before the other.
pub proof fn components_lt_total(a: Seq<Seq<char>>, b: Seq<Seq<char>>)
    ensures
        a == b || components_lt(a, b) || components_lt(b, a),
    decreases a.len(),
{
    if a.len() > 0 && b.len() > 0 && a[0] == b[0] {
        components_lt_total(a.drop_first(), b.drop_first());
        if a.drop_first() == b.drop_first() {
            assert(a =~= seq![a[0]] + a.drop_first());
            assert(b =~= seq![b[0]] + b.drop_first());
        }
    } else if a.len() == 0 && b.len() == 0 {
        assert(a =~= b);
    } else if a.len() > 0 && b.len() > 0 {
        component_lt_total(a[0], b[0]);
    }
}

/// Whether the paths are in order, each once.
pub open spec fn paths_increase(s: Seq<Seq<char>>) -> bool {
    forall|i: int, j: int| 0 <= i < j < s.len() ==> path_lt(#[trigger] s[i], #[trigger] s[j])
}

/// Whether one of the paths has the components of `x`.
pub open spec fn holds_path(s: Seq<Seq<char>>, x: Seq<char>) -> bool {
    exists|i: int| 0 <= i < s.len() && components(#[trigger] s[i]) == components(x)
}

proof fn path_inserted_ok(s: Seq<Seq<char>>, x: Seq<char>)
    requires
        paths_increase(s),
    ensures
        paths_increase(path_inserted(s, x)),
        holds_path(path_inserted(s, x), x),
        forall|i: int| 0 <= i < s.len() ==> path_inserted(s, x).contains(#[trigger] s[i]),
        forall|i: int|
            0 <= i < path_inserted(s, x).len() ==> (#[trigger] path_inserted(s, x)[i] == x
                || s.contains(path_inserted(s, x)[i])),
    decreases s.len(),
{
    let r = path_inserted(s, x);
    if s.len() == 0 {
        assert(r[0] == x);
    } else {
        let t = s.drop_first();
        assert(forall|j: int| 0 <= j < t.len() ==> t[j] == s[j + 1]);
        assert(paths_increase(t));
        if components(s[0]) == components(x) {
            assert forall|i: int| 0 <= i < r.len() implies s.contains(#[trigger] r[i]) by {
                assert(s[i] == r[i]);
            }
        } else if path_lt(x, s[0]) {
            assert(r[0] == x);
            assert(forall|j: int| 0 < j < r.len() ==> r[j] == s[j - 1]);
            assert forall|i: int, j: int| 0 <= i < j < r.len() implies path_lt(
                #[trigger] r[i],
                #[trigger] r[j],
            ) by {
                if i == 0 && j > 1 {
                    components_lt_transitive(components(x), components(s[0]), components(s[j - 1]));
                }
            }
            assert forall|i: int| 0 <= i < s.len() implies r.contains(#[trigger] s[i]) by {
                assert(r[i + 1] == s[i]);
            }
        } else {
            let q = path_inserted(t, x);
            path_inserted_ok(t, x);
            components_lt_total(components(x), components(s[0]));
            assert(r[0] == s[0]);
            assert(forall|j: int| 0 < j < r.len() ==> r[j] == q[j - 1]);
            assert forall|i: int, j: int| 0 <= i < j < r.len() implies path_lt(
                #[trigger] r[i],
                #[trigger] r[j],
            ) by {
                assert(r[j] == q[j - 1]);
                if i > 0 {
                    assert(r[i] == q[i - 1]);
                } else if q[j - 1] != x {
                    let k = choose|k: int| 0 <= k < t.len() && t[k] == q[j - 1];
                    assert(path_lt(s[0], s[k + 1]));
                }
            }
            let h = choose|h: int| 0 <= h < q.len() && components(#[trigger] q[h]) == components(x);
            assert(components(r[h + 1]) == components(x));
            assert forall|i: int| 0 <= i < s.len() implies r.contains(#[trigger] s[i]) by {
                if i == 0 {
                    assert(r[0] == s[0]);
                } else {
                    assert(q.contains(t[i - 1]));
                    let k = choose|k: int| 0 <= k < q.len() && q[k] == t[i - 1];
                    assert(r[k + 1] == s[i]);
                }
            }
            assert forall|i: int| 0 <= i < r.len() implies (#[trigger] r[i] == x || s.contains(
                r[i],
            )) by {
                if i == 0 {
                    assert(s[0] == r[0]);
                } else if q[i - 1] != x {
                    assert(t.contains(q[i - 1]));
                    let k = choose|k: int| 0 <= k < t.len() && t[k] == q[i - 1];
                    assert(s[k + 1] == r[i]);
                }
            }
        }
    }
}

/// Sorted paths are in order, each once; they are among the given ones, and each
/// given one is there under the same components.
pub proof fn paths_sorted_ok(s: Seq<Seq<char>>)
    ensures
        paths_increase(paths_sorted(s)),
        forall|i: int| 0 <= i < s.len() ==> holds_path(paths_sorted(s), #[trigger] s[i]),
        forall|i: int| 0 <= i < paths_sorted(s).len() ==> s.contains(#[trigger] paths_sorted(s)[i]),
    decreases s.len(),
{
    if s.len() > 0 {
        let d = s.drop_last();
        let p = paths_sorted(d);
        let r = paths_sorted(s);
        paths_sorted_ok(d);
        path_inserted_ok(p, s.last());
        assert forall|i: int| 0 <= i < s.len() implies holds_path(r, #[trigger] s[i]) by {
            if i < d.len() {
                assert(holds_path(p, d[i]));
                let k = choose|k: int|
                    0 <= k < p.len() && components(#[trigger] p[k]) == components(s[i]);
                assert(r.contains(p[k]));
                let n = choose|n: int| 0 <= n < r.len() && r[n] == p[k];
                assert(components(r[n]) == components(s[i]));
            }
        }
        assert forall|i: int| 0 <= i < r.len() implies s.contains(#[trigger] r[i]) by {
            if r[i] == s.last() {
                assert(s[s.len() - 1] == r[i]);
            } else {
                assert(p.contains(r[i]));
                let k = choose|k: int| 0 <= k < p.len() && p[k] == r[i];
                assert(d.contains(p[k]));
                let n = choose|n: int| 0 <= n < d.len() && d[n] == p[k];
                assert(s[n] == r[i]);
            }
        }
    }
}

} // verus!
