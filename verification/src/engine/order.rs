//! The order in which resources are built at the start.

use vstd::prelude::*;

use crate::daemon::state::among;
use crate::manifest::Manifest;
use crate::text::{same, texts, texts_push};

verus! {

/// What the order depends on: the name of a resource, what it depends on, and
/// whether it is built at the start.
pub struct NodeV {
    pub name: Seq<char>,
    pub deps: Seq<Seq<char>>,
    pub auto_init: bool,
}

/// The resources of a config.
pub open spec fn nodes_view(v: Seq<Manifest>) -> Seq<NodeV> {
    v.map_values(
        |m: Manifest|
            NodeV {
                name: m.name@,
                deps: texts(m.resource_deps@),
                auto_init: m.auto_init,
            },
    )
}

/// The index of the last resource with the name.
pub open spec fn node_index(nodes: Seq<NodeV>, name: Seq<char>) -> Option<int>
    decreases nodes.len(),
{
    if nodes.len() == 0 {
        None
    } else if nodes.last().name == name {
        Some(nodes.len() - 1)
    } else {
        node_index(nodes.drop_last(), name)
    }
}

/// The index of the last manifest with the name.
pub fn manifest_index(v: &Vec<Manifest>, name: &str) -> (r: Option<usize>)
    ensures
        match r {
            Some(i) => i < v@.len() && node_index(nodes_view(v@), name@) == Some(i as int),
            None => node_index(nodes_view(v@), name@) is None,
        },
{
    let ghost all = nodes_view(v@);
    let mut i: usize = v.len();
    assert(all.take(i as int) =~= all);
    while i > 0
        invariant
            i <= v@.len(),
            all == nodes_view(v@),
            node_index(all, name@) == node_index(all.take(i as int), name@),
        decreases i,
    {
        assert(all.take(i as int).last() == all[i - 1]);
        assert(all.take(i as int).drop_last() =~= all.take(i - 1));
        if same(v[i - 1].name.as_str(), name) {
            return Some(i - 1);
        }
        i -= 1;
    }
    None
}

/// What is left to do: look at a resource and what it depends on, or list it.
pub enum TaskV {
    Visit(Seq<char>),
    Emit(Seq<char>),
}

/// The resources that the named one depends on.
pub open spec fn deps_of(nodes: Seq<NodeV>, name: Seq<char>) -> Seq<Seq<char>> {
    match node_index(nodes, name) {
        Some(i) => nodes[i].deps,
        None => Seq::empty(),
    }
}

/// The number of resources that were not looked at.
pub open spec fn unvisited(nodes: Seq<NodeV>, visited: Seq<Seq<char>>) -> nat
    decreases nodes.len(),
{
    if nodes.len() == 0 {
        0
    } else {
        unvisited(nodes.drop_last(), visited) + (if visited.contains(nodes.last().name) {
            0nat
        } else {
            1nat
        })
    }
}

/// How much there is left to do apart from looking at resources.
pub open spec fn weight(tasks: Seq<TaskV>) -> nat
    decreases tasks.len(),
{
    if tasks.len() == 0 {
        0
    } else {
        weight(tasks.drop_first()) + (match tasks[0] {
            TaskV::Visit(_) => 2nat,
            TaskV::Emit(_) => 1nat,
        })
    }
}

/// Looking at each of the names.
pub open spec fn visits(names: Seq<Seq<char>>) -> Seq<TaskV> {
    names.map_values(|n: Seq<char>| TaskV::Visit(n))
}

/// What is put in the place of looking at a resource: looking at what it depends
/// on, then listing it.
pub open spec fn expansion(nodes: Seq<NodeV>, name: Seq<char>) -> Seq<TaskV> {
    visits(deps_of(nodes, name)).push(TaskV::Emit(name))
}

/// The names listed when all tasks are done, depth first, none looked at twice.
pub open spec fn listed(
    nodes: Seq<NodeV>,
    tasks: Seq<TaskV>,
    order: Seq<Seq<char>>,
    visited: Seq<Seq<char>>,
) -> Seq<Seq<char>>
    decreases unvisited(nodes, visited), weight(tasks),
    via listed_decreases
{
    if tasks.len() == 0 {
        order
    } else {
        let rest = tasks.drop_first();
        match tasks[0] {
            TaskV::Emit(n) => listed(nodes, rest, order.push(n), visited),
            TaskV::Visit(n) => if visited.contains(n) {
                listed(nodes, rest, order, visited)
            } else {
                listed(nodes, expansion(nodes, n) + rest, order, visited.push(n))
            },
        }
    }
}

/// Looking at one more resource leaves no more of them unlooked at, and fewer
/// where it is one of the config's.
proof fn unvisited_push(nodes: Seq<NodeV>, visited: Seq<Seq<char>>, n: Seq<char>)
    ensures
        unvisited(nodes, visited.push(n)) <= unvisited(nodes, visited),
        node_index(nodes, n) is Some && !visited.contains(n) ==> unvisited(nodes, visited.push(n))
            < unvisited(nodes, visited),
    decreases nodes.len(),
{
    if nodes.len() > 0 {
        unvisited_push(nodes.drop_last(), visited, n);
        push_contains(visited, n, nodes.last().name);
    }
}

proof fn push_contains(v: Seq<Seq<char>>, n: Seq<char>, x: Seq<char>)
    ensures
        v.push(n).contains(x) == (v.contains(x) || x == n),
{
    let w = v.push(n);
    if v.contains(x) {
        let i = choose|i: int| 0 <= i < v.len() && v[i] == x;
        assert(w[i] == x);
    }
    if x == n {
        assert(w[v.len() as int] == x);
    }
    if w.contains(x) && x != n {
        let i = choose|i: int| 0 <= i < w.len() && w[i] == x;
        assert(v[i] == x);
    }
}

#[via_fn]
proof fn listed_decreases(
    nodes: Seq<NodeV>,
    tasks: Seq<TaskV>,
    order: Seq<Seq<char>>,
    visited: Seq<Seq<char>>,
) {
    if tasks.len() > 0 {
        if let TaskV::Visit(n) = tasks[0] {
            unvisited_push(nodes, visited, n);
            if node_index(nodes, n) is None {
                assert(deps_of(nodes, n) =~= Seq::empty());
                let e = expansion(nodes, n);
                assert(e =~= seq![TaskV::Emit(n)]);
                let t = e + tasks.drop_first();
                assert(t.drop_first() =~= tasks.drop_first());
                assert(t[0] == TaskV::Emit(n));
            }
        }
    }
}

/// The names of the resources that are built at the start.
pub open spec fn auto_names(nodes: Seq<NodeV>) -> Seq<Seq<char>>
    decreases nodes.len(),
{
    if nodes.len() == 0 {
        Seq::empty()
    } else {
        let rest = auto_names(nodes.drop_last());
        if nodes.last().auto_init {
            rest.push(nodes.last().name)
        } else {
            rest
        }
    }
}

/// Those of the names that are resources of the config.
pub open spec fn known_names(nodes: Seq<NodeV>, names: Seq<Seq<char>>) -> Seq<Seq<char>>
    decreases names.len(),
{
    if names.len() == 0 {
        Seq::empty()
    } else {
        let rest = known_names(nodes, names.drop_last());
        if node_index(nodes, names.last()) is Some {
            rest.push(names.last())
        } else {
            rest
        }
    }
}

/// Everything that the start builds, depth first, with names that the config does
/// not have.
pub open spec fn full_order(nodes: Seq<NodeV>) -> Seq<Seq<char>> {
    listed(nodes, visits(auto_names(nodes)), Seq::empty(), Seq::empty())
}

/// The order in which resources are built at the start: those that are built
/// there, each after what it depends on.
pub open spec fn build_order(nodes: Seq<NodeV>) -> Seq<Seq<char>> {
    known_names(nodes, full_order(nodes))
}

/// What is left to do.
enum Task {
    Visit(String),
    Emit(String),
}

spec fn task_view(t: Task) -> TaskV {
    match t {
        Task::Visit(n) => TaskV::Visit(n@),
        Task::Emit(n) => TaskV::Emit(n@),
    }
}

/// A stack of tasks, the next one last.
spec fn stack_view(v: Seq<Task>) -> Seq<TaskV> {
    v.map_values(|t: Task| task_view(t)).reverse()
}

proof fn stack_push(v: Seq<Task>, t: Task)
    ensures
        stack_view(v.push(t)) == seq![task_view(t)] + stack_view(v),
{
    assert(stack_view(v.push(t)) =~= seq![task_view(t)] + stack_view(v));
}

/// Pushes the visits of the names, so that the first is the next task.
fn push_visits(stack: &mut Vec<Task>, names: &Vec<String>)
    ensures
        stack_view(final(stack)@) == visits(texts(names@)) + stack_view(old(stack)@),
{
    let ghost all = visits(texts(names@));
    let ghost base = stack_view(stack@);
    let mut i: usize = names.len();
    assert(all.skip(i as int) + base =~= base);
    while i > 0
        invariant
            i <= names@.len(),
            all == visits(texts(names@)),
            stack_view(stack@) == all.skip(i as int) + base,
        decreases i,
    {
        i -= 1;
        let task = Task::Visit(names[i].clone());
        proof {
            stack_push(stack@, task);
            assert(task_view(task) == all[i as int]);
            assert(all.skip(i as int) + base =~= seq![all[i as int]] + (all.skip(i + 1) + base));
        }
        stack.push(task);
    }
    assert(all.skip(0) =~= all);
}

/// The order in which resources are built at the start: those that are built
/// there, each after what it depends on. Cycles are broken where they close.
pub fn initial_build_order(manifests: &Vec<Manifest>) -> (r: Vec<String>)
    ensures
        texts(r@) == build_order(nodes_view(manifests@)),
{
    broadcast use texts_push;

    let ghost nodes = nodes_view(manifests@);
    let mut autos: Vec<String> = Vec::new();
    let mut i: usize = 0;
    assert(texts(autos@) =~= auto_names(nodes.take(0)));
    while i < manifests.len()
        invariant
            i <= manifests@.len(),
            nodes == nodes_view(manifests@),
            texts(autos@) == auto_names(nodes.take(i as int)),
        decreases manifests@.len() - i,
    {
        proof {
            assert(nodes.take(i + 1).drop_last() =~= nodes.take(i as int));
            assert(nodes.take(i + 1).last() == nodes[i as int]);
        }
        if manifests[i].auto_init {
            autos.push(manifests[i].name.clone());
        }
        i += 1;
    }
    assert(nodes.take(i as int) =~= nodes);
    let mut stack: Vec<Task> = Vec::new();
    assert(stack_view(stack@) =~= Seq::empty());
    push_visits(&mut stack, &autos);
    assert(stack_view(stack@) =~= visits(auto_names(nodes)));
    let mut order: Vec<String> = Vec::new();
    let mut visited: Vec<String> = Vec::new();
    assert(texts(order@) =~= Seq::empty());
    assert(texts(visited@) =~= Seq::empty());
    while stack.len() > 0
        invariant
            nodes == nodes_view(manifests@),
            listed(nodes, stack_view(stack@), texts(order@), texts(visited@)) == full_order(nodes),
        decreases unvisited(nodes, texts(visited@)), weight(stack_view(stack@)),
    {
        let ghost tasks = stack_view(stack@);
        let ghost seen = texts(visited@);
        let ghost out = texts(order@);
        let ghost before = stack@;
        proof {
            assert(stack@ =~= stack@.drop_last().push(stack@.last()));
            stack_push(stack@.drop_last(), stack@.last());
            assert(tasks[0] == task_view(stack@.last()));
            assert(tasks.drop_first() =~= stack_view(stack@.drop_last()));
        }
        let task = match stack.pop() {
            Some(t) => t,
            None => {
                return Vec::new();
            },
        };
        assert(stack@ =~= before.drop_last());
        assert(task_view(task) == tasks[0]);
        assert(stack_view(stack@) == tasks.drop_first());
        match task {
            Task::Emit(n) => {
                order.push(n);
                assert(texts(order@) == out.push(n@));
                assert(listed(nodes, stack_view(stack@), texts(order@), seen) == full_order(nodes));
            },
            Task::Visit(n) => {
                if !among(n.as_str(), &visited) {
                    proof {
                        unvisited_push(nodes, seen, n@);
                    }
                    let emit = Task::Emit(n.clone());
                    let ghost rest = stack_view(stack@);
                    proof {
                        stack_push(stack@, emit);
                    }
                    stack.push(emit);
                    match manifest_index(manifests, n.as_str()) {
                        Some(k) => {
                            push_visits(&mut stack, &manifests[k].resource_deps);
                            assert(deps_of(nodes, n@) =~= texts(
                                manifests@[k as int].resource_deps@,
                            ));
                        },
                        None => {
                            assert(visits(deps_of(nodes, n@)) =~= Seq::empty());
                        },
                    }
                    assert(stack_view(stack@) =~= expansion(nodes, n@) + rest);
                    proof {
                        if node_index(nodes, n@) is None {
                            assert(expansion(nodes, n@) =~= seq![TaskV::Emit(n@)]);
                            let t = expansion(nodes, n@) + rest;
                            assert(t.drop_first() =~= rest);
                        }
                    }
                    visited.push(n);
                    assert(texts(visited@) == seen.push(n@));
                } else {
                    assert(listed(nodes, stack_view(stack@), out, seen) == full_order(nodes));
                }
            },
        }
    }
    assert(stack_view(stack@) =~= Seq::empty());
    let mut r: Vec<String> = Vec::new();
    let mut k: usize = 0;
    let ghost all = texts(order@);
    assert(texts(r@) =~= known_names(nodes, all.take(0)));
    while k < order.len()
        invariant
            k <= order@.len(),
            nodes == nodes_view(manifests@),
            all == texts(order@),
            texts(r@) == known_names(nodes, all.take(k as int)),
        decreases order@.len() - k,
    {
        proof {
            assert(all.take(k + 1).drop_last() =~= all.take(k as int));
            assert(all.take(k + 1).last() == all[k as int]);
        }
        if manifest_index(manifests, order[k].as_str()).is_some() {
            r.push(order[k].clone());
        }
        k += 1;
    }
    assert(all.take(k as int) =~= all);
    r
}

/// Whether the ranks show that no resource depends on itself, directly or not.
pub open spec fn acyclic(nodes: Seq<NodeV>, rank: spec_fn(Seq<char>) -> nat) -> bool {
    forall|n: Seq<char>, d: Seq<char>|
        #[trigger] deps_of(nodes, n).contains(d) ==> rank(d) < rank(n)
}

/// The resource that a task is about.
spec fn subject(t: TaskV) -> Seq<char> {
    match t {
        TaskV::Visit(n) => n,
        TaskV::Emit(n) => n,
    }
}

/// Whether listing the name is left to do.
spec fn to_emit(tasks: Seq<TaskV>, n: Seq<char>) -> bool {
    exists|j: int| 0 <= j < tasks.len() && #[trigger] tasks[j] == TaskV::Emit(n)
}

/// Whether looking at the name is left to do, before the task at the index.
spec fn to_visit(tasks: Seq<TaskV>, d: Seq<char>, before: int) -> bool {
    exists|i: int| 0 <= i < before && i < tasks.len() && #[trigger] tasks[i] == TaskV::Visit(d)
}

/// Whether something calls for the name to be built.
spec fn called_for(
    nodes: Seq<NodeV>,
    wanted: Seq<Seq<char>>,
    visited: Seq<Seq<char>>,
    d: Seq<char>,
) -> bool {
    wanted.contains(d) || exists|u: Seq<char>|
        visited.contains(u) && #[trigger] deps_of(nodes, u).contains(d)
}

/// What holds while the tasks are done.
spec fn on_track(
    nodes: Seq<NodeV>,
    tasks: Seq<TaskV>,
    order: Seq<Seq<char>>,
    visited: Seq<Seq<char>>,
    wanted: Seq<Seq<char>>,
) -> bool {
    &&& order.no_duplicates()
    &&& forall|x: Seq<char>| #[trigger] order.contains(x) ==> visited.contains(x)
    &&& forall|j: int|
        0 <= j < tasks.len() && #[trigger] tasks[j] is Emit ==> visited.contains(subject(tasks[j]))
            && !order.contains(subject(tasks[j]))
    &&& forall|i: int, j: int|
        0 <= i < j < tasks.len() && #[trigger] tasks[i] is Emit && #[trigger] tasks[j] is Emit
            ==> tasks[i] != tasks[j]
    &&& forall|x: Seq<char>| #[trigger] visited.contains(x) ==> order.contains(x) || to_emit(
        tasks,
        x,
    )
    &&& forall|j: int, d: Seq<char>|
        0 <= j < tasks.len() && (#[trigger] tasks[j]) is Emit && #[trigger] deps_of(
            nodes,
            subject(tasks[j]),
        ).contains(d) ==> visited.contains(d) || to_visit(tasks, d, j)
    &&& forall|a: Seq<char>| #[trigger]
        wanted.contains(a) ==> visited.contains(a) || to_visit(tasks, a, tasks.len() as int)
    &&& forall|x: Seq<char>| #[trigger]
        visited.contains(x) ==> called_for(nodes, wanted, visited, x)
    &&& forall|j: int|
        0 <= j < tasks.len() && #[trigger] tasks[j] is Visit ==> called_for(
            nodes,
            wanted,
            visited,
            subject(tasks[j]),
        )
}

/// Whether what stands before listing a resource ranks below it.
spec fn ranked(tasks: Seq<TaskV>, rank: spec_fn(Seq<char>) -> nat) -> bool {
    forall|i: int, j: int|
        0 <= i < j < tasks.len() && #[trigger] tasks[j] is Emit ==> rank(
            subject(#[trigger] tasks[i]),
        ) < rank(subject(tasks[j]))
}

/// Whether each listed name comes after what it depends on.
pub open spec fn deps_first(nodes: Seq<NodeV>, order: Seq<Seq<char>>) -> bool {
    forall|k: int, d: Seq<char>|
        0 <= k < order.len() && #[trigger] deps_of(nodes, #[trigger] order[k]).contains(d) ==> order.take(
        k).contains(d)
}

/// Whether the list is complete: what is wanted and what listed names depend on,
/// each once, and nothing else.
pub open spec fn complete(
    nodes: Seq<NodeV>,
    order: Seq<Seq<char>>,
    wanted: Seq<Seq<char>>,
) -> bool {
    &&& order.no_duplicates()
    &&& forall|a: Seq<char>| #[trigger] wanted.contains(a) ==> order.contains(a)
    &&& forall|n: Seq<char>, d: Seq<char>|
        order.contains(n) && #[trigger] deps_of(nodes, n).contains(d) ==> order.contains(d)
    &&& forall|x: Seq<char>| #[trigger]
        order.contains(x) ==> wanted.contains(x) || exists|u: Seq<char>|
            order.contains(u) && #[trigger] deps_of(nodes, u).contains(x)
}

/// The dependencies of what was listed were looked at.
spec fn closed(nodes: Seq<NodeV>, order: Seq<Seq<char>>, visited: Seq<Seq<char>>) -> bool {
    forall|n: Seq<char>, d: Seq<char>|
        order.contains(n) && #[trigger] deps_of(nodes, n).contains(d) ==> visited.contains(d)
}

proof fn shift_visit(tasks: Seq<TaskV>, d: Seq<char>, before: int)
    requires
        tasks.len() > 0,
        to_visit(tasks, d, before),
        tasks[0] != TaskV::Visit(d),
    ensures
        to_visit(tasks.drop_first(), d, before - 1),
{
    let i = choose|i: int|
        0 <= i < before && i < tasks.len() && #[trigger] tasks[i] == TaskV::Visit(d);
    assert(tasks.drop_first()[i - 1] == TaskV::Visit(d));
}

proof fn step_emit(
    nodes: Seq<NodeV>,
    tasks: Seq<TaskV>,
    order: Seq<Seq<char>>,
    visited: Seq<Seq<char>>,
    wanted: Seq<Seq<char>>,
)
    requires
        tasks.len() > 0,
        tasks[0] is Emit,
        on_track(nodes, tasks, order, visited, wanted),
        closed(nodes, order, visited),
    ensures
        on_track(nodes, tasks.drop_first(), order.push(subject(tasks[0])), visited, wanted),
        closed(nodes, order.push(subject(tasks[0])), visited),
{
    let n = subject(tasks[0]);
    let t = tasks.drop_first();
    let o = order.push(n);
    assert(forall|j: int| 0 <= j < t.len() ==> t[j] == tasks[j + 1]);
    assert(!order.contains(n));
    assert(o.no_duplicates()) by {
        assert forall|i: int, j: int| 0 <= i < o.len() && 0 <= j < o.len() && i != j implies o[i]
            != o[j] by {
            if i < order.len() && j < order.len() {
                assert(order[i] != order[j]);
            } else if i < order.len() {
                assert(order.contains(order[i]));
            } else {
                assert(order.contains(order[j]));
            }
        }
    }
    assert forall|x: Seq<char>| #[trigger] o.contains(x) implies visited.contains(x) by {
        push_contains(order, n, x);
    }
    assert forall|j: int| 0 <= j < t.len() && #[trigger] t[j] is Emit implies visited.contains(
        subject(t[j]),
    ) && !o.contains(subject(t[j])) by {
        assert(tasks[j + 1] == t[j]);
        assert(tasks[0] != tasks[j + 1]);
        push_contains(order, n, subject(t[j]));
    }
    assert forall|x: Seq<char>| #[trigger] visited.contains(x) implies o.contains(x) || to_emit(
        t,
        x,
    ) by {
        push_contains(order, n, x);
        if !order.contains(x) {
            let j = choose|j: int| 0 <= j < tasks.len() && #[trigger] tasks[j] == TaskV::Emit(x);
            if j > 0 {
                assert(t[j - 1] == TaskV::Emit(x));
            }
        }
    }
    assert forall|j: int, d: Seq<char>|
        0 <= j < t.len() && (#[trigger] t[j]) is Emit && #[trigger] deps_of(
            nodes,
            subject(t[j]),
        ).contains(d) implies visited.contains(d) || to_visit(t, d, j) by {
        assert(tasks[j + 1] == t[j]);
        if !visited.contains(d) {
            shift_visit(tasks, d, j + 1);
        }
    }
    assert forall|a: Seq<char>| #[trigger] wanted.contains(a) implies visited.contains(a)
        || to_visit(t, a, t.len() as int) by {
        if !visited.contains(a) {
            shift_visit(tasks, a, tasks.len() as int);
        }
    }
    assert forall|m: Seq<char>, d: Seq<char>|
        o.contains(m) && #[trigger] deps_of(nodes, m).contains(d) implies visited.contains(d) by {
        push_contains(order, n, m);
        if m == n {
            assert(tasks[0] is Emit);
            assert(!to_visit(tasks, d, 0));
        }
    }
}

proof fn step_seen(
    nodes: Seq<NodeV>,
    tasks: Seq<TaskV>,
    order: Seq<Seq<char>>,
    visited: Seq<Seq<char>>,
    wanted: Seq<Seq<char>>,
)
    requires
        tasks.len() > 0,
        tasks[0] is Visit,
        visited.contains(subject(tasks[0])),
        on_track(nodes, tasks, order, visited, wanted),
    ensures
        on_track(nodes, tasks.drop_first(), order, visited, wanted),
{
    let t = tasks.drop_first();
    assert(forall|j: int| 0 <= j < t.len() ==> t[j] == tasks[j + 1]);
    assert forall|x: Seq<char>| #[trigger] visited.contains(x) implies order.contains(x) || to_emit(
        t,
        x,
    ) by {
        if !order.contains(x) {
            let j = choose|j: int| 0 <= j < tasks.len() && #[trigger] tasks[j] == TaskV::Emit(x);
            assert(t[j - 1] == TaskV::Emit(x));
        }
    }
    assert forall|j: int, d: Seq<char>|
        0 <= j < t.len() && (#[trigger] t[j]) is Emit && #[trigger] deps_of(
            nodes,
            subject(t[j]),
        ).contains(d) implies visited.contains(d) || to_visit(t, d, j) by {
        assert(tasks[j + 1] == t[j]);
        if !visited.contains(d) {
            shift_visit(tasks, d, j + 1);
        }
    }
    assert forall|a: Seq<char>| #[trigger] wanted.contains(a) implies visited.contains(a)
        || to_visit(t, a, t.len() as int) by {
        if !visited.contains(a) {
            shift_visit(tasks, a, tasks.len() as int);
        }
    }
}

proof fn step_visit(
    nodes: Seq<NodeV>,
    tasks: Seq<TaskV>,
    order: Seq<Seq<char>>,
    visited: Seq<Seq<char>>,
    wanted: Seq<Seq<char>>,
)
    requires
        tasks.len() > 0,
        tasks[0] is Visit,
        !visited.contains(subject(tasks[0])),
        on_track(nodes, tasks, order, visited, wanted),
        closed(nodes, order, visited),
    ensures
        on_track(
            nodes,
            expansion(nodes, subject(tasks[0])) + tasks.drop_first(),
            order,
            visited.push(subject(tasks[0])),
            wanted,
        ),
        closed(nodes, order, visited.push(subject(tasks[0]))),
{
    let n = subject(tasks[0]);
    let deps = deps_of(nodes, n);
    let e = expansion(nodes, n);
    let rest = tasks.drop_first();
    let t = e + rest;
    let v = visited.push(n);
    let len = e.len() as int;
    assert(len == deps.len() + 1);
    assert(forall|j: int| 0 <= j < deps.len() ==> t[j] == TaskV::Visit(deps[j]));
    assert(t[len - 1] == TaskV::Emit(n));
    assert(forall|j: int| len <= j < t.len() ==> t[j] == tasks[j - len + 1]);
    assert forall|x: Seq<char>| #[trigger] order.contains(x) implies v.contains(x) by {
        push_contains(visited, n, x);
    }
    assert forall|j: int| 0 <= j < t.len() && #[trigger] t[j] is Emit implies v.contains(
        subject(t[j]),
    ) && !order.contains(subject(t[j])) by {
        push_contains(visited, n, subject(t[j]));
        if j >= len {
            assert(tasks[j - len + 1] == t[j]);
        }
    }
    assert forall|i: int, j: int|
        0 <= i < j < t.len() && #[trigger] t[i] is Emit && #[trigger] t[j] is Emit implies t[i]
        != t[j] by {
        assert(t[j] == tasks[j - len + 1]);
        if i >= len {
            assert(t[i] == tasks[i - len + 1]);
        } else {
            assert(visited.contains(subject(tasks[j - len + 1])));
        }
    }
    assert forall|x: Seq<char>| #[trigger] v.contains(x) implies order.contains(x) || to_emit(
        t,
        x,
    ) by {
        push_contains(visited, n, x);
        if x == n {
            assert(t[len - 1] == TaskV::Emit(x));
        } else if !order.contains(x) {
            let j = choose|j: int| 0 <= j < tasks.len() && #[trigger] tasks[j] == TaskV::Emit(x);
            assert(t[j - 1 + len] == TaskV::Emit(x));
        }
    }
    assert forall|j: int, d: Seq<char>|
        0 <= j < t.len() && (#[trigger] t[j]) is Emit && #[trigger] deps_of(
            nodes,
            subject(t[j]),
        ).contains(d) implies v.contains(d) || to_visit(t, d, j) by {
        push_contains(visited, n, d);
        if j == len - 1 {
            let a = choose|a: int| 0 <= a < deps.len() && deps[a] == d;
            assert(t[a] == TaskV::Visit(d));
        } else {
            assert(tasks[j - len + 1] == t[j]);
            if !v.contains(d) {
                shift_visit(tasks, d, j - len + 1);
                let i = choose|i: int|
                    0 <= i < j - len && i < rest.len() && #[trigger] rest[i] == TaskV::Visit(d);
                assert(t[i + len] == TaskV::Visit(d));
            }
        }
    }
    assert forall|a: Seq<char>| #[trigger] wanted.contains(a) implies v.contains(a) || to_visit(
        t,
        a,
        t.len() as int,
    ) by {
        push_contains(visited, n, a);
        if !v.contains(a) {
            shift_visit(tasks, a, tasks.len() as int);
            let i = choose|i: int|
                0 <= i < tasks.len() - 1 && i < rest.len() && #[trigger] rest[i] == TaskV::Visit(a);
            assert(t[i + len] == TaskV::Visit(a));
        }
    }
    push_contains(visited, n, n);
    assert forall|x: Seq<char>| called_for(nodes, wanted, visited, x) implies called_for(
        nodes,
        wanted,
        v,
        x,
    ) by {
        if !wanted.contains(x) {
            let u = choose|u: Seq<char>|
                visited.contains(u) && #[trigger] deps_of(nodes, u).contains(x);
            push_contains(visited, n, u);
            assert(v.contains(u) && deps_of(nodes, u).contains(x));
        }
    }
    assert(called_for(nodes, wanted, visited, n)) by {
        assert(tasks[0] is Visit);
    }
    assert forall|x: Seq<char>| #[trigger] v.contains(x) implies called_for(
        nodes,
        wanted,
        v,
        x,
    ) by {
        push_contains(visited, n, x);
    }
    assert forall|j: int| 0 <= j < t.len() && #[trigger] t[j] is Visit implies called_for(
        nodes,
        wanted,
        v,
        subject(t[j]),
    ) by {
        if j < deps.len() {
            assert(t[j] == TaskV::Visit(deps[j]));
            assert(deps.contains(deps[j]));
            assert(v.contains(n) && deps_of(nodes, n).contains(deps[j]));
        } else {
            assert(tasks[j - len + 1] == t[j]);
        }
    }
    assert forall|m: Seq<char>, d: Seq<char>|
        order.contains(m) && #[trigger] deps_of(nodes, m).contains(d) implies v.contains(d) by {
        push_contains(visited, n, d);
    }
}

/// What is listed is complete.
proof fn listed_complete(
    nodes: Seq<NodeV>,
    tasks: Seq<TaskV>,
    order: Seq<Seq<char>>,
    visited: Seq<Seq<char>>,
    wanted: Seq<Seq<char>>,
)
    requires
        on_track(nodes, tasks, order, visited, wanted),
        closed(nodes, order, visited),
    ensures
        complete(nodes, listed(nodes, tasks, order, visited), wanted),
    decreases unvisited(nodes, visited), weight(tasks),
{
    if tasks.len() == 0 {
        assert(forall|x: Seq<char>| #[trigger] visited.contains(x) ==> order.contains(x));
        assert forall|x: Seq<char>| #[trigger] order.contains(x) implies wanted.contains(x)
            || exists|u: Seq<char>| order.contains(u) && #[trigger] deps_of(nodes, u).contains(
            x,
        ) by {
            assert(visited.contains(x));
            assert(called_for(nodes, wanted, visited, x));
        }
    } else {
        match tasks[0] {
            TaskV::Emit(n) => {
                step_emit(nodes, tasks, order, visited, wanted);
                listed_complete(nodes, tasks.drop_first(), order.push(n), visited, wanted);
            },
            TaskV::Visit(n) => {
                if visited.contains(n) {
                    step_seen(nodes, tasks, order, visited, wanted);
                    listed_complete(nodes, tasks.drop_first(), order, visited, wanted);
                } else {
                    step_visit(nodes, tasks, order, visited, wanted);
                    unvisited_push(nodes, visited, n);
                    let t = expansion(nodes, n) + tasks.drop_first();
                    if node_index(nodes, n) is None {
                        assert(expansion(nodes, n) =~= seq![TaskV::Emit(n)]);
                        assert(t.drop_first() =~= tasks.drop_first());
                        assert(t[0] == TaskV::Emit(n));
                    }
                    listed_complete(nodes, t, order, visited.push(n), wanted);
                }
            },
        }
    }
}

/// Without cycles, what is listed comes after what it depends on.
proof fn listed_deps_first(
    nodes: Seq<NodeV>,
    tasks: Seq<TaskV>,
    order: Seq<Seq<char>>,
    visited: Seq<Seq<char>>,
    wanted: Seq<Seq<char>>,
    rank: spec_fn(Seq<char>) -> nat,
)
    requires
        on_track(nodes, tasks, order, visited, wanted),
        closed(nodes, order, visited),
        acyclic(nodes, rank),
        ranked(tasks, rank),
        deps_first(nodes, order),
    ensures
        deps_first(nodes, listed(nodes, tasks, order, visited)),
    decreases unvisited(nodes, visited), weight(tasks),
{
    if tasks.len() > 0 {
        let rest = tasks.drop_first();
        assert(forall|j: int| 0 <= j < rest.len() ==> rest[j] == tasks[j + 1]);
        match tasks[0] {
            TaskV::Emit(n) => {
                let o = order.push(n);
                assert forall|k: int, d: Seq<char>|
                    0 <= k < o.len() && #[trigger] deps_of(nodes, #[trigger] o[k]).contains(
                        d,
                    ) implies o.take(k).contains(d) by {
                    if k < order.len() {
                        assert(o[k] == order[k]);
                        assert(o.take(k) =~= order.take(k));
                    } else {
                        assert(rank(d) < rank(n));
                        assert(!to_visit(tasks, d, 0));
                        assert(visited.contains(d));
                        if !order.contains(d) {
                            let j = choose|j: int|
                                0 <= j < tasks.len() && #[trigger] tasks[j] == TaskV::Emit(d);
                            if j > 0 {
                                assert(rank(subject(tasks[0])) < rank(subject(tasks[j])));
                            }
                            assert(false);
                        }
                        assert(o.take(k) =~= order);
                    }
                }
                step_emit(nodes, tasks, order, visited, wanted);
                assert(ranked(rest, rank)) by {
                    assert forall|i: int, j: int|
                        0 <= i < j < rest.len() && #[trigger] rest[j] is Emit implies rank(
                        subject(#[trigger] rest[i]),
                    ) < rank(subject(rest[j])) by {
                        assert(rest[i] == tasks[i + 1] && rest[j] == tasks[j + 1]);
                    }
                }
                listed_deps_first(nodes, rest, o, visited, wanted, rank);
            },
            TaskV::Visit(n) => {
                if visited.contains(n) {
                    step_seen(nodes, tasks, order, visited, wanted);
                    assert(ranked(rest, rank)) by {
                        assert forall|i: int, j: int|
                            0 <= i < j < rest.len() && #[trigger] rest[j] is Emit implies rank(
                            subject(#[trigger] rest[i]),
                        ) < rank(subject(rest[j])) by {
                            assert(rest[i] == tasks[i + 1] && rest[j] == tasks[j + 1]);
                        }
                    }
                    listed_deps_first(nodes, rest, order, visited, wanted, rank);
                } else {
                    step_visit(nodes, tasks, order, visited, wanted);
                    unvisited_push(nodes, visited, n);
                    let e = expansion(nodes, n);
                    let deps = deps_of(nodes, n);
                    let t = e + rest;
                    if node_index(nodes, n) is None {
                        assert(e =~= seq![TaskV::Emit(n)]);
                        assert(t.drop_first() =~= rest);
                        assert(t[0] == TaskV::Emit(n));
                    }
                    let len = e.len() as int;
                    assert(ranked(t, rank)) by {
                        assert forall|i: int, j: int|
                            0 <= i < j < t.len() && #[trigger] t[j] is Emit implies rank(
                            subject(#[trigger] t[i]),
                        ) < rank(subject(t[j])) by {
                            if i < len - 1 {
                                assert(t[i] == TaskV::Visit(deps[i]));
                                assert(deps.contains(deps[i]));
                                assert(rank(deps[i]) < rank(n));
                            }
                            if j >= len {
                                assert(t[j] == tasks[j - len + 1]);
                                assert(rank(subject(tasks[0])) < rank(
                                    subject(tasks[j - len + 1]),
                                ));
                                if i >= len {
                                    assert(t[i] == tasks[i - len + 1]);
                                }
                            } else {
                                assert(t[j] == TaskV::Emit(n));
                            }
                        }
                    }
                    listed_deps_first(nodes, t, order, visited.push(n), wanted, rank);
                }
            },
        }
    }
}

proof fn start_on_track(nodes: Seq<NodeV>)
    ensures
        on_track(
            nodes,
            visits(auto_names(nodes)),
            Seq::empty(),
            Seq::empty(),
            auto_names(nodes),
        ),
{
    let autos = auto_names(nodes);
    let tasks = visits(autos);
    assert forall|a: Seq<char>| #[trigger] autos.contains(a) implies to_visit(
        tasks,
        a,
        tasks.len() as int,
    ) by {
        let i = choose|i: int| 0 <= i < autos.len() && autos[i] == a;
        assert(tasks[i] == TaskV::Visit(a));
    }
    assert forall|j: int| 0 <= j < tasks.len() && #[trigger] tasks[j] is Visit implies called_for(
        nodes,
        autos,
        Seq::empty(),
        subject(tasks[j]),
    ) by {
        assert(autos.contains(autos[j]));
    }
}

/// The start lists what is to be built there and what that depends on, directly
/// or not, each once, and nothing else.
pub proof fn order_complete(nodes: Seq<NodeV>)
    ensures
        complete(nodes, full_order(nodes), auto_names(nodes)),
{
    start_on_track(nodes);
    listed_complete(
        nodes,
        visits(auto_names(nodes)),
        Seq::empty(),
        Seq::empty(),
        auto_names(nodes),
    );
}

/// Where no resource depends on itself, directly or not, each is listed after what
/// it depends on.
pub proof fn order_respects_deps(nodes: Seq<NodeV>, rank: spec_fn(Seq<char>) -> nat)
    requires
        acyclic(nodes, rank),
    ensures
        deps_first(nodes, full_order(nodes)),
{
    start_on_track(nodes);
    listed_deps_first(
        nodes,
        visits(auto_names(nodes)),
        Seq::empty(),
        Seq::empty(),
        auto_names(nodes),
        rank,
    );
}

/// The known ones of the names are those of them that the config has.
pub proof fn known_names_contains(nodes: Seq<NodeV>, names: Seq<Seq<char>>, x: Seq<char>)
    ensures
        known_names(nodes, names).contains(x) <==> names.contains(x) && node_index(
            nodes,
            x,
        ) is Some,
    decreases names.len(),
{
    if names.len() > 0 {
        let d = names.drop_last();
        known_names_contains(nodes, d, x);
        assert(d.push(names.last()) =~= names);
        push_contains(d, names.last(), x);
        push_contains(known_names(nodes, d), names.last(), x);
    }
}

/// What stands before a known name among the known ones stands before it among all.
proof fn known_names_prefix(nodes: Seq<NodeV>, names: Seq<Seq<char>>, k: int) -> (i: int)
    requires
        0 <= k < known_names(nodes, names).len(),
    ensures
        0 <= i < names.len(),
        names[i] == known_names(nodes, names)[k],
        known_names(nodes, names.take(i)) == known_names(nodes, names).take(k),
    decreases names.len(),
{
    let d = names.drop_last();
    let kd = known_names(nodes, d);
    let all = known_names(nodes, names);
    if k < kd.len() {
        let i = known_names_prefix(nodes, d, k);
        assert(names.take(i) =~= d.take(i));
        assert(all.take(k) =~= kd.take(k));
        assert(all[k] == kd[k]);
        i
    } else {
        assert(names.take(names.len() - 1) =~= d);
        assert(all.take(k) =~= kd);
        names.len() - 1
    }
}

/// Where no resource depends on itself, directly or not, each resource is built at
/// the start after all resources that it depends on, and each is built once.
pub proof fn start_respects_deps(nodes: Seq<NodeV>, rank: spec_fn(Seq<char>) -> nat)
    requires
        acyclic(nodes, rank),
    ensures
        build_order(nodes).no_duplicates(),
        forall|k: int, d: Seq<char>|
            0 <= k < build_order(nodes).len() && #[trigger] deps_of(
                nodes,
                #[trigger] build_order(nodes)[k],
            ).contains(d) && node_index(nodes, d) is Some ==> build_order(nodes).take(k).contains(
            d),
{
    let full = full_order(nodes);
    let order = build_order(nodes);
    order_complete(nodes);
    order_respects_deps(nodes, rank);
    assert forall|k: int, d: Seq<char>|
        0 <= k < order.len() && #[trigger] deps_of(nodes, #[trigger] order[k]).contains(d)
            && node_index(nodes, d) is Some implies order.take(k).contains(d) by {
        let i = known_names_prefix(nodes, full, k);
        assert(deps_of(nodes, full[i]).contains(d));
        known_names_contains(nodes, full.take(i), d);
    }
    assert forall|a: int, b: int| 0 <= a < order.len() && 0 <= b < order.len() && a != b implies order[a]
        != order[b] by {
        known_distinct(nodes, full, a, b);
    }
}

proof fn known_distinct(nodes: Seq<NodeV>, names: Seq<Seq<char>>, a: int, b: int)
    requires
        names.no_duplicates(),
        0 <= a < known_names(nodes, names).len(),
        0 <= b < known_names(nodes, names).len(),
        a != b,
    ensures
        known_names(nodes, names)[a] != known_names(nodes, names)[b],
{
    let i = known_names_prefix(nodes, names, a);
    let j = known_names_prefix(nodes, names, b);
    if i == j {
        assert(known_names(nodes, names).take(a).len() == known_names(nodes, names).take(b).len());
    }
}

} // verus!
