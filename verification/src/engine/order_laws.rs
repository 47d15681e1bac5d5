//! What is built at the start and in which order, whatever the resources are.

use vstd::prelude::*;
use vstd::string::*;

use crate::engine::engine_laws::node_found;
use crate::engine::order::{
    auto_names, build_order, deps_of, full_order, known_names_contains, node_index,
    nodes_view, order_complete, start_respects_deps, NodeV,
};
use crate::manifest::Manifest;
use crate::text::texts;

verus! {

/// Whether a resource is the one that its name stands for: the last of the name.
pub open spec fn counts(ms: Seq<Manifest>, i: int) -> bool {
    0 <= i < ms.len() && forall|j: int| i < j < ms.len() ==> (#[trigger] ms[j]).name@ != ms[i].name@
}

/// Whether a resource depends on another.
pub open spec fn depends(m: Manifest, name: Seq<char>) -> bool {
    exists|k: int| 0 <= k < m.resource_deps@.len() && (#[trigger] m.resource_deps@[k])@ == name
}

proof fn counted_index(ms: Seq<Manifest>, i: int)
    requires
        counts(ms, i),
    ensures
        node_index(nodes_view(ms), ms[i].name@) == Some(i),
        deps_of(nodes_view(ms), ms[i].name@) == texts(ms[i].resource_deps@),
{
    let name = ms[i].name@;
    node_found(ms, name);
    let k = node_index(nodes_view(ms), name)->0;
    if node_index(nodes_view(ms), name) is None {
        assert(ms[i].name@ != name);
    } else if k < i {
        assert(ms[i].name@ != name);
    } else if i < k {
        assert(ms[k].name@ != name);
    }
}

proof fn autos_told(nodes: Seq<NodeV>, x: Seq<char>)
    ensures
        auto_names(nodes).contains(x) <==> exists|i: int|
            0 <= i < nodes.len() && (#[trigger] nodes[i]).auto_init && nodes[i].name == x,
    decreases nodes.len(),
{
    if nodes.len() > 0 {
        let d = nodes.drop_last();
        let rest = auto_names(d);
        let all = auto_names(nodes);
        autos_told(d, x);
        assert(nodes.last() == nodes[nodes.len() - 1]);
        if all.contains(x) {
            if rest.contains(x) {
                let i = choose|i: int|
                    0 <= i < d.len() && (#[trigger] d[i]).auto_init && d[i].name == x;
                assert(nodes[i] == d[i]);
            } else {
                let k = choose|k: int| 0 <= k < all.len() && all[k] == x;
                if k < rest.len() {
                    assert(rest[k] == x);
                }
            }
        }
        if exists|i: int|
            0 <= i < nodes.len() && (#[trigger] nodes[i]).auto_init && nodes[i].name == x {
            let i = choose|i: int|
                0 <= i < nodes.len() && (#[trigger] nodes[i]).auto_init && nodes[i].name == x;
            if i < d.len() {
                assert(d[i] == nodes[i]);
                let k = choose|k: int| 0 <= k < rest.len() && rest[k] == x;
                assert(all[k] == x);
            } else {
                assert(all[rest.len() as int] == x);
            }
        }
    }
}

/// Every resource that is built at the start is, and so is everything that it depends on,
/// as far as it is declared.
pub proof fn start_builds_all(ms: Seq<Manifest>, i: int, j: int)
    requires
        counts(ms, i),
        counts(ms, j),
    ensures
        ms[i].auto_init ==> build_order(nodes_view(ms)).contains(ms[i].name@),
        build_order(nodes_view(ms)).contains(ms[i].name@) && depends(ms[i], ms[j].name@)
            ==> build_order(nodes_view(ms)).contains(ms[j].name@),
{
    let nodes = nodes_view(ms);
    let full = full_order(nodes);
    order_complete(nodes);
    counted_index(ms, i);
    counted_index(ms, j);
    known_names_contains(nodes, full, ms[i].name@);
    known_names_contains(nodes, full, ms[j].name@);
    autos_told(nodes, ms[i].name@);
    assert(nodes[i].auto_init == ms[i].auto_init && nodes[i].name == ms[i].name@);
    assert(ms[i].auto_init ==> auto_names(nodes).contains(ms[i].name@));
    if depends(ms[i], ms[j].name@) {
        let k = choose|k: int|
            0 <= k < ms[i].resource_deps@.len() && (#[trigger] ms[i].resource_deps@[k])@
                == ms[j].name@;
        let t = texts(ms[i].resource_deps@);
        assert(t[k] == ms[j].name@);
        assert(deps_of(nodes, ms[i].name@).contains(ms[j].name@));
    }
}

/// Nothing is built at the start but what is to be, and what something that is built
/// depends on.
pub proof fn start_builds_only(ms: Seq<Manifest>, x: Seq<char>)
    requires
        build_order(nodes_view(ms)).contains(x),
    ensures
        exists|i: int| 0 <= i < ms.len() && (#[trigger] ms[i]).name@ == x,
        (exists|i: int| 0 <= i < ms.len() && (#[trigger] ms[i]).name@ == x && ms[i].auto_init) || (
        exists|i: int|
            0 <= i < ms.len() && depends(#[trigger] ms[i], x) && build_order(
                nodes_view(ms),
            ).contains(ms[i].name@)),
{
    let nodes = nodes_view(ms);
    let full = full_order(nodes);
    order_complete(nodes);
    known_names_contains(nodes, full, x);
    node_found(ms, x);
    autos_told(nodes, x);
    assert(full.contains(x));
    if auto_names(nodes).contains(x) {
        let i = choose|i: int|
            0 <= i < nodes.len() && (#[trigger] nodes[i]).auto_init && nodes[i].name == x;
        assert(ms[i].name@ == x && ms[i].auto_init);
    } else {
        let u = choose|u: Seq<char>| full.contains(u) && #[trigger] deps_of(nodes, u).contains(x);
        node_found(ms, u);
        let i = node_index(nodes, u)->0;
        let t = texts(ms[i].resource_deps@);
        assert(deps_of(nodes, u) == t);
        let k = choose|k: int| 0 <= k < t.len() && t[k] == x;
        assert(ms[i].resource_deps@[k]@ == x);
        assert(depends(ms[i], x));
        known_names_contains(nodes, full, u);
    }
}

/// Each resource is built once, and after what it depends on, unless resources depend on
/// each other in a circle.
pub proof fn dependencies_built_first(
    ms: Seq<Manifest>,
    rank: spec_fn(Seq<char>) -> nat,
    k: int,
    i: int,
    j: int,
)
    requires
        forall|a: int, x: Seq<char>|
            0 <= a < ms.len() && #[trigger] depends(ms[a], x) ==> rank(x) < rank(ms[a].name@),
        counts(ms, i),
        counts(ms, j),
        0 <= k < build_order(nodes_view(ms)).len(),
        build_order(nodes_view(ms))[k] == ms[i].name@,
        depends(ms[i], ms[j].name@),
    ensures
        build_order(nodes_view(ms)).no_duplicates(),
        build_order(nodes_view(ms)).take(k).contains(ms[j].name@),
{
    let nodes = nodes_view(ms);
    assert forall|n: Seq<char>, d: Seq<char>| #[trigger]
        deps_of(nodes, n).contains(d) implies rank(d) < rank(n) by {
        node_found(ms, n);
        let a = node_index(nodes, n)->0;
        let t = texts(ms[a].resource_deps@);
        assert(deps_of(nodes, n) == t);
        let m = choose|m: int| 0 <= m < t.len() && t[m] == d;
        assert(ms[a].resource_deps@[m]@ == d);
        assert(depends(ms[a], d));
    }
    start_respects_deps(nodes, rank);
    counted_index(ms, i);
    counted_index(ms, j);
    let m = choose|m: int|
        0 <= m < ms[i].resource_deps@.len() && (#[trigger] ms[i].resource_deps@[m])@
            == ms[j].name@;
    let t = texts(ms[i].resource_deps@);
    assert(t[m] == ms[j].name@);
    assert(deps_of(nodes, build_order(nodes)[k]).contains(ms[j].name@));
}

} // verus!
