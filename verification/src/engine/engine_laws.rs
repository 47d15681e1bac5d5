//! What the engine keeps running across restarts and reloads, whatever is declared.

use vstd::prelude::*;
use vstd::string::*;

use crate::engine::log::{log_v, Level};
use crate::engine::manager::{
    following, forward_pod, forwards_without, kept_texts, left_texts, live_forwards,
    newly_followed,
};
use crate::engine::named_ports::{
    freed_ports, holds_name, kept_ports, missing_ports, settled_port, want_index, want_of, wanted,
};
use crate::engine::order::{node_index, nodes_view};
use crate::engine::state::{
    change_port_steps, known, load_steps, names_without, port_changed, removal_steps,
    removed_names, replace_steps, restart_steps, restarted, server_index, starts_of, stop_steps,
    stopped, without_resources, EngineEffectV, EngineV,
};
use crate::manifest::{Manifest, NamedPortLease};
use crate::proxy::PortReservation;
use crate::text::dec;

verus! {

/// A list without a name has all others, and not that one.
proof fn name_dropped(v: Seq<Seq<char>>, name: Seq<char>, x: Seq<char>)
    ensures
        names_without(v, name).contains(x) <==> v.contains(x) && x != name,
    decreases v.len(),
{
    if v.len() > 0 {
        let d = v.drop_last();
        let rest = names_without(d, name);
        let all = names_without(v, name);
        name_dropped(d, name, x);
        assert(v.last() == v[v.len() - 1]);
        if all.contains(x) && !rest.contains(x) {
            let i = choose|i: int| 0 <= i < all.len() && all[i] == x;
            if i < rest.len() {
                assert(rest[i] == x);
            }
        }
        if rest.contains(x) {
            let i = choose|i: int| 0 <= i < rest.len() && rest[i] == x;
            assert(all[i] == x);
            let j = choose|j: int| 0 <= j < d.len() && d[j] == x;
            assert(v[j] == x);
        }
        if v.contains(x) && x != name {
            let j = choose|j: int| 0 <= j < v.len() && v[j] == x;
            if j < d.len() {
                assert(d[j] == x);
            } else {
                assert(all[rest.len() as int] == x);
            }
        }
    }
}

/// A resource that serves runs after it was restarted, and was started once more; one that
/// does not serve does not run then. All others run as before, as often started.
pub proof fn restart_runs_one(v: EngineV, name: Seq<char>, other: Seq<char>)
    requires
        starts_of(v.starts, name) < u32::MAX,
    ensures
        server_index(v.manifests, name) is Some ==> restarted(v, name).started.contains(name)
            && starts_of(restarted(v, name).starts, name) == starts_of(v.starts, name) + 1,
        server_index(v.manifests, name) is None ==> !restarted(v, name).started.contains(name)
            && restarted(v, name).starts == v.starts,
        other != name ==> (restarted(v, name).started.contains(other) <==> v.started.contains(
            other,
        )) && starts_of(restarted(v, name).starts, other) == starts_of(v.starts, other),
        restarted(v, name).manifests == v.manifests,
        restarted(v, name).overrides == v.overrides,
{
    let a = names_without(v.started, name);
    name_dropped(v.started, name, name);
    name_dropped(v.started, name, other);
    name_dropped(a, name, name);
    name_dropped(a, name, other);
    let b = names_without(a, name);
    let c = b.push(name);
    assert(c[b.len() as int] == name);
    if c.contains(other) && other != name {
        let i = choose|i: int| 0 <= i < c.len() && c[i] == other;
        assert(b[i] == other);
    }
    if b.contains(other) {
        let i = choose|i: int| 0 <= i < b.len() && b[i] == other;
        assert(c[i] == other);
    }
}

/// A restart shows that it goes on, stops what runs and says so, then serves again with the
/// number of starts before, where there is something to serve.
pub proof fn restart_steps_told(v: EngineV, name: Seq<char>)
    ensures
        restart_steps(v, name)[0] == (EngineEffectV::SetRuntime { name, status: "in_progress"@ }),
        restart_steps(v, name).contains(
            EngineEffectV::Stop { name, running: v.started.contains(name) },
        ),
        v.started.contains(name) ==> restart_steps(v, name).contains(
            EngineEffectV::Log(log_v(name, Level::Info, "Restarting serve_cmd...\n"@)),
        ),
        server_index(v.manifests, name) matches Some(i) ==> restart_steps(v, name).last() == (
        EngineEffectV::Serve { name, index: i, restarts: starts_of(v.starts, name) }),
        restart_steps(v, name).len() == 2 + (if v.started.contains(name) {
            1int
        } else {
            0int
        }) + (if server_index(v.manifests, name) is Some {
            1int
        } else {
            0int
        }),
{
    let s = restart_steps(v, name);
    let stop = EngineEffectV::Stop { name, running: v.started.contains(name) };
    if v.started.contains(name) {
        assert(s[1] == EngineEffectV::Log(log_v(name, Level::Info, "Restarting serve_cmd...\n"@)));
        assert(s[2] == stop);
    } else {
        assert(s[1] == stop);
    }
}

/// After an update, what serves is served anew, whether it ran or not; what does not serve
/// is left alone.
pub proof fn replaced_after_update(v: EngineV, name: Seq<char>)
    ensures
        server_index(v.manifests, name) is None ==> replace_steps(v, name).len() == 0,
        server_index(v.manifests, name) matches Some(i) ==> replace_steps(v, name).last() == (
        EngineEffectV::Serve { name, index: i, restarts: starts_of(v.starts, name) })
            && replace_steps(v, name).contains(
            EngineEffectV::Stop { name, running: v.started.contains(name) },
        ),
        server_index(v.manifests, name) is Some && v.started.contains(name) ==> replace_steps(
            v,
            name,
        )[0] == (EngineEffectV::SetRuntime { name, status: "in_progress"@ }),
{
    let s = replace_steps(v, name);
    let stop = EngineEffectV::Stop { name, running: v.started.contains(name) };
    if server_index(v.manifests, name) is Some {
        if v.started.contains(name) {
            assert(s[2] == stop);
        } else {
            assert(s[0] == stop);
        }
    }
}

/// The resource of a name: the last one that has it.
pub proof fn node_found(ms: Seq<Manifest>, name: Seq<char>)
    ensures
        node_index(nodes_view(ms), name) matches Some(i) ==> 0 <= i < ms.len() && ms[i].name@
            == name && forall|j: int| i < j < ms.len() ==> (#[trigger] ms[j]).name@ != name,
        node_index(nodes_view(ms), name) is None ==> forall|j: int|
            0 <= j < ms.len() ==> (#[trigger] ms[j]).name@ != name,
    decreases ms.len(),
{
    if ms.len() > 0 {
        let d = ms.drop_last();
        assert(nodes_view(ms).drop_last() =~= nodes_view(d));
        assert(nodes_view(ms).last().name == ms.last().name@);
        assert(ms.last() == ms[ms.len() - 1]);
        node_found(d, name);
        assert forall|j: int| 0 <= j < d.len() implies d[j] == ms[j] by {}
        assert forall|j: int|
            node_index(nodes_view(ms), name) is None && 0 <= j < ms.len() implies (
        #[trigger] ms[j]).name@ != name by {
            if j < d.len() {
                assert(d[j] == ms[j]);
            }
        }
        if let Some(i) = node_index(nodes_view(ms), name) {
            assert forall|j: int| i < j < ms.len() implies (#[trigger] ms[j]).name@ != name by {
                if j < d.len() {
                    assert(d[j] == ms[j]);
                }
            }
        }
    }
}

/// A server is a resource of the name that has a command to serve.
pub proof fn servers_told(ms: Seq<Manifest>, name: Seq<char>)
    ensures
        server_index(ms, name) matches Some(i) ==> 0 <= i < ms.len() && ms[i].name@ == name
            && ms[i].serve_cmd.argv@.len() > 0,
        server_index(ms, name) is None ==> forall|j: int|
            0 <= j < ms.len() && (#[trigger] ms[j]).name@ == name && (forall|k: int|
                j < k < ms.len() ==> (#[trigger] ms[k]).name@ != name)
                ==> ms[j].serve_cmd.argv@.len() == 0,
{
    node_found(ms, name);
    assert forall|j: int|
        server_index(ms, name) is None && 0 <= j < ms.len() && (#[trigger] ms[j]).name@ == name && (
        forall|k: int| j < k < ms.len() ==> (#[trigger] ms[k]).name@ != name) implies
        ms[j].serve_cmd.argv@.len() == 0 by {
        let i = node_index(nodes_view(ms), name)->0;
        if i < j {
            assert(ms[j].name@ != name);
        } else if j < i {
            assert(ms[i].name@ != name);
        }
    }
}

/// A server whose port is changed has that port, keeps it across reloads, and runs again;
/// all other resources are as they were. Where there is no such server nothing changes.
pub proof fn port_change_told(v: EngineV, name: Seq<char>, port: u16, k: int)
    requires
        starts_of(v.starts, name) < u32::MAX,
        0 <= k < v.manifests.len(),
    ensures
        server_index(v.manifests, name) is None ==> port_changed(v, name, port) == v,
        server_index(v.manifests, name) matches Some(i) ==> {
            &&& port_changed(v, name, port).manifests.len() == v.manifests.len()
            &&& port_changed(v, name, port).manifests[i].serve_port == Some(port)
            &&& port_changed(v, name, port).manifests[i] == (Manifest {
                serve_port: Some(port),
                ..v.manifests[i]
            })
            &&& k != i ==> port_changed(v, name, port).manifests[k] == v.manifests[k]
            &&& port_changed(v, name, port).overrides == v.overrides.insert(name, port)
            &&& change_port_steps(v, name, port)[0] == EngineEffectV::Log(
                log_v(
                    name,
                    Level::Info,
                    "Changing preferred serve_port to "@ + dec(port as nat)
                        + "; restarting serve_cmd...\n"@,
                ),
            )
            &&& change_port_steps(v, name, port).skip(1) == restart_steps(v, name)
        },
{
    servers_told(v.manifests, name);
    if server_index(v.manifests, name) is Some {
        assert(change_port_steps(v, name, port).skip(1) =~= restart_steps(v, name));
    }
}

/// What a reload takes out are the resources that were declared before and are not any more.
pub proof fn removed_told(before: Seq<Manifest>, after: Seq<Manifest>, x: Seq<char>)
    ensures
        removed_names(before, after).contains(x) <==> known(before, x) && !known(after, x),
    decreases before.len(),
{
    if before.len() > 0 {
        let d = before.drop_last();
        let last = before.last();
        let rest = removed_names(d, after);
        let all = removed_names(before, after);
        removed_told(d, after, x);
        assert(last == before[before.len() - 1]);
        if known(d, x) {
            let i = choose|i: int| 0 <= i < d.len() && (#[trigger] d[i]).name@ == x;
            assert(before[i] == d[i]);
        }
        if known(before, x) && x != last.name@ {
            let i = choose|i: int| 0 <= i < before.len() && (#[trigger] before[i]).name@ == x;
            assert(d[i] == before[i]);
        }
        if all.contains(x) && !rest.contains(x) {
            let i = choose|i: int| 0 <= i < all.len() && all[i] == x;
            if i < rest.len() {
                assert(rest[i] == x);
            }
        }
        if rest.contains(x) {
            let i = choose|i: int| 0 <= i < rest.len() && rest[i] == x;
            assert(all[i] == x);
        }
        if x == last.name@ && !known(after, x) {
            assert(all[rest.len() as int] == x);
        }
    }
}

/// A resource that is taken out does not run any more, and neither its starts nor its port
/// is remembered; all others stay as they are.
pub proof fn taken_out(v: EngineV, names: Seq<Seq<char>>, x: Seq<char>)
    ensures
        without_resources(v, names).started.contains(x) <==> v.started.contains(x)
            && !names.contains(x),
        names.contains(x) ==> !without_resources(v, names).starts.contains_key(x)
            && !without_resources(v, names).overrides.contains_key(x),
        !names.contains(x) ==> starts_of(without_resources(v, names).starts, x) == starts_of(
            v.starts,
            x,
        ) && (without_resources(v, names).overrides.contains_key(x)
            <==> v.overrides.contains_key(x)) && (v.overrides.contains_key(x)
            ==> without_resources(v, names).overrides[x] == v.overrides[x]),
        without_resources(v, names).manifests == v.manifests,
    decreases names.len(),
{
    if names.len() > 0 {
        let d = names.drop_last();
        let n = names.last();
        taken_out(v, d, x);
        name_dropped(without_resources(v, d).started, n, x);
        assert(n == names[names.len() - 1]);
        if d.contains(x) {
            let i = choose|i: int| 0 <= i < d.len() && d[i] == x;
            assert(names[i] == x);
        }
        if names.contains(x) && x != n {
            let i = choose|i: int| 0 <= i < names.len() && names[i] == x;
            assert(d[i] == x);
        }
    }
}

/// Each resource that is taken out is stopped and forgotten.
pub proof fn removal_told(v: EngineV, names: Seq<Seq<char>>, x: Seq<char>)
    ensures
        removal_steps(v, names).contains(EngineEffectV::Remove(x)) <==> names.contains(x),
        names.no_duplicates() && names.contains(x) ==> removal_steps(v, names).contains(
            EngineEffectV::Stop { name: x, running: v.started.contains(x) },
        ),
    decreases names.len(),
{
    if names.len() > 0 {
        let d = names.drop_last();
        let n = names.last();
        let w = without_resources(v, d);
        let rest = removal_steps(v, d);
        let more = stop_steps(w, n, "Stopping serve_cmd; resource was removed...\n"@).push(
            EngineEffectV::Remove(n),
        );
        let all = rest + more;
        removal_told(v, d, x);
        assert(n == names[names.len() - 1]);
        assert(more.last() == EngineEffectV::Remove(n));
        if names.contains(x) {
            if x == n {
                assert(all[all.len() - 1] == EngineEffectV::Remove(x));
                taken_out(v, d, x);
                if names.no_duplicates() {
                    assert(!d.contains(x));
                    assert(w.started.contains(x) == v.started.contains(x));
                    assert(all[all.len() - 2] == (EngineEffectV::Stop {
                        name: x,
                        running: v.started.contains(x),
                    }));
                }
            } else {
                let i = choose|i: int| 0 <= i < names.len() && names[i] == x;
                assert(d[i] == x);
                let r = EngineEffectV::Remove(x);
                let k = choose|k: int| 0 <= k < rest.len() && rest[k] == r;
                assert(all[k] == r);
                if names.no_duplicates() {
                    assert(d.no_duplicates());
                    let s = EngineEffectV::Stop { name: x, running: v.started.contains(x) };
                    let m = choose|m: int| 0 <= m < rest.len() && rest[m] == s;
                    assert(all[m] == s);
                }
            }
        }
        let r = EngineEffectV::Remove(x);
        if all.contains(r) {
            let k = choose|k: int| 0 <= k < all.len() && all[k] == r;
            if k < rest.len() {
                assert(rest[k] == r);
                let i = choose|i: int| 0 <= i < d.len() && d[i] == x;
                assert(names[i] == x);
            } else {
                assert(more[k - rest.len()] == r);
                assert(x == n);
            }
        }
    }
}

/// What a reload prints is logged line by line.
pub proof fn printed_logged(span: Seq<char>, lines: Seq<Seq<char>>, k: int)
    ensures
        load_steps(span, lines).len() == lines.len(),
        0 <= k < lines.len() ==> load_steps(span, lines)[k] == EngineEffectV::Log(
            log_v(span, Level::Info, lines[k] + "\n"@),
        ),
    decreases lines.len(),
{
    if lines.len() > 0 {
        printed_logged(span, lines.drop_last(), k);
    }
}

proof fn want_found(v: Seq<(Seq<char>, Option<u16>)>, name: Seq<char>, from: int)
    requires
        0 <= from <= v.len(),
    ensures
        ({
            let i = want_index(v, name, from);
            &&& from <= i <= v.len()
            &&& i < v.len() ==> v[i].0 == name
            &&& forall|j: int| from <= j < i ==> (#[trigger] v[j]).0 != name
        }),
    decreases v.len() - from,
{
    if from < v.len() && v[from].0 != name {
        want_found(v, name, from + 1);
    }
}

/// The last lease of a name says which port is wanted for it; the others are wanted as
/// before.
pub proof fn last_lease_counts(leases: Seq<NamedPortLease>, lease: NamedPortLease, other: Seq<char>)
    ensures
        want_of(wanted(leases.push(lease)), lease.name@) == Some(lease.preferred),
        other != lease.name@ ==> want_of(wanted(leases.push(lease)), other) == want_of(
            wanted(leases),
            other,
        ),
        want_of(wanted(Seq::empty()), other) is None,
{
    let all = leases.push(lease);
    assert(all.drop_last() =~= leases);
    assert(all.last() == lease);
    let v = wanted(leases);
    let w = wanted(all);
    let n = lease.name@;
    want_found(v, n, 0);
    want_found(w, n, 0);
    want_found(v, other, 0);
    want_found(w, other, 0);
    let i = want_index(v, n, 0);
    let j = want_index(w, n, 0);
    if i < v.len() {
        assert(w[i].0 == n);
        if j < i {
            assert(w[j] == v[j]);
        }
    } else {
        assert(w[v.len() as int].0 == n);
        if j < v.len() {
            assert(w[j] == v[j]);
        }
    }
    if other != n {
        let a = want_index(v, other, 0);
        let b = want_index(w, other, 0);
        if a < v.len() {
            assert(w[a] == v[a]);
            if b < a {
                assert(w[b] == v[b]);
            }
        } else if b < v.len() {
            assert(w[b] == v[b]);
        }
    }
}

/// A port is kept just where it is still wanted under its name, with the same preference;
/// else it is given back.
pub proof fn ports_kept_or_freed(
    held: Seq<(Seq<char>, PortReservation)>,
    wants: Seq<(Seq<char>, Option<u16>)>,
    x: (Seq<char>, PortReservation),
)
    ensures
        kept_ports(held, wants).contains(x) <==> held.contains(x) && want_of(wants, x.0) == Some(
            x.1.preferred,
        ),
        held.contains(x) && want_of(wants, x.0) != Some(x.1.preferred) ==> freed_ports(
            held,
            wants,
        ).contains(x.1.port),
        kept_ports(held, wants).len() + freed_ports(held, wants).len() == held.len(),
    decreases held.len(),
{
    if held.len() > 0 {
        let d = held.drop_last();
        let last = held.last();
        let rest = kept_ports(d, wants);
        let all = kept_ports(held, wants);
        let fr = freed_ports(d, wants);
        let fa = freed_ports(held, wants);
        ports_kept_or_freed(d, wants, x);
        assert(last == held[held.len() - 1]);
        if all.contains(x) && !rest.contains(x) {
            let i = choose|i: int| 0 <= i < all.len() && all[i] == x;
            if i < rest.len() {
                assert(rest[i] == x);
            }
        }
        if rest.contains(x) {
            let i = choose|i: int| 0 <= i < rest.len() && rest[i] == x;
            assert(all[i] == x);
            let j = choose|j: int| 0 <= j < d.len() && d[j] == x;
            assert(held[j] == x);
        }
        if held.contains(x) {
            let j = choose|j: int| 0 <= j < held.len() && held[j] == x;
            if j < d.len() {
                assert(d[j] == x);
                if fr.contains(x.1.port) {
                    let k = choose|k: int| 0 <= k < fr.len() && fr[k] == x.1.port;
                    assert(fa[k] == x.1.port);
                }
            } else if want_of(wants, x.0) == Some(x.1.preferred) {
                assert(all[rest.len() as int] == x);
            } else {
                assert(fa[fr.len() as int] == x.1.port);
            }
        }
    }
}

/// A port is asked for just where it is wanted and none is held under its name.
pub proof fn missing_told(
    held: Seq<(Seq<char>, PortReservation)>,
    wants: Seq<(Seq<char>, Option<u16>)>,
    x: (Seq<char>, Option<u16>),
)
    ensures
        missing_ports(held, wants).contains(x) <==> wants.contains(x) && forall|i: int|
            0 <= i < held.len() ==> (#[trigger] held[i]).0 != x.0,
    decreases wants.len(),
{
    if wants.len() > 0 {
        let d = wants.drop_last();
        let last = wants.last();
        let rest = missing_ports(held, d);
        let all = missing_ports(held, wants);
        missing_told(held, d, x);
        assert(last == wants[wants.len() - 1]);
        if all.contains(x) && !rest.contains(x) {
            let i = choose|i: int| 0 <= i < all.len() && all[i] == x;
            if i < rest.len() {
                assert(rest[i] == x);
            }
        }
        if rest.contains(x) {
            let i = choose|i: int| 0 <= i < rest.len() && rest[i] == x;
            assert(all[i] == x);
            let j = choose|j: int| 0 <= j < d.len() && d[j] == x;
            assert(wants[j] == x);
        }
        if wants.contains(x) && !holds_name(held, x.0) {
            let j = choose|j: int| 0 <= j < wants.len() && wants[j] == x;
            if j < d.len() {
                assert(d[j] == x);
            } else {
                assert(all[rest.len() as int] == x);
            }
        }
    }
}

/// A port that the proxy reserved is taken; else a free one stands in, in place of a
/// preferred one as a conflict; else there is none.
pub proof fn port_settled(
    preferred: Option<u16>,
    reserved: PortReservation,
    free: Result<u16, String>,
    port: u16,
    e: String,
)
    ensures
        settled_port(preferred, Some(reserved), free) == Some(reserved),
        settled_port(preferred, None, Ok(port)) == Some(
            PortReservation { port, preferred, conflict: preferred is Some },
        ),
        settled_port(preferred, None, Err(e)) is None,
{
}

/// Once ports are forwarded to a pod they go to it, and those of all others go where they
/// went.
pub proof fn forward_moved(
    v: Seq<(Seq<char>, Seq<char>)>,
    name: Seq<char>,
    pod: Seq<char>,
    other: Seq<char>,
)
    ensures
        forward_pod(forwards_without(v, name).push((name, pod)), name) == Some(pod),
        other != name ==> forward_pod(forwards_without(v, name).push((name, pod)), other)
            == forward_pod(v, other),
    decreases v.len(),
{
    let w = forwards_without(v, name);
    assert(w.push((name, pod)).drop_last() =~= w);
    if other != name {
        forward_kept(v, name, other);
    }
}

proof fn forward_kept(v: Seq<(Seq<char>, Seq<char>)>, name: Seq<char>, other: Seq<char>)
    requires
        other != name,
    ensures
        forward_pod(forwards_without(v, name), other) == forward_pod(v, other),
    decreases v.len(),
{
    if v.len() > 0 {
        let d = v.drop_last();
        forward_kept(d, name, other);
        let w = forwards_without(d, name);
        assert(w.push(v.last()).drop_last() =~= w);
    }
}

/// Forwards of objects that are gone end, and no others.
pub proof fn forwards_live(
    v: Seq<(Seq<char>, Seq<char>)>,
    live: Seq<Seq<char>>,
    name: Seq<char>,
)
    ensures
        live.contains(name) ==> forward_pod(live_forwards(v, live), name) == forward_pod(v, name),
        !live.contains(name) ==> forward_pod(live_forwards(v, live), name) is None,
    decreases v.len(),
{
    if v.len() > 0 {
        let d = v.drop_last();
        forwards_live(d, live, name);
        let w = live_forwards(d, live);
        assert(w.push(v.last()).drop_last() =~= w);
    }
}

/// Logs of pods that are gone are not followed any more: what is followed no longer is
/// just what was and was not found. Every pod that is found and was not followed is from
/// now on.
pub proof fn follows_change(v: Seq<Seq<char>>, live: Seq<Seq<char>>, x: Seq<char>)
    ensures
        left_texts(v, live).contains(x) <==> v.contains(x) && !live.contains(x),
        kept_texts(v, live).contains(x) <==> v.contains(x) && live.contains(x),
    decreases v.len(),
{
    if v.len() > 0 {
        let d = v.drop_last();
        let l = left_texts(d, live);
        let la = left_texts(v, live);
        let k = kept_texts(d, live);
        let ka = kept_texts(v, live);
        follows_change(d, live, x);
        assert(v.last() == v[v.len() - 1]);
        if la.contains(x) && !l.contains(x) {
            let i = choose|i: int| 0 <= i < la.len() && la[i] == x;
            if i < l.len() {
                assert(l[i] == x);
            }
        }
        if ka.contains(x) && !k.contains(x) {
            let i = choose|i: int| 0 <= i < ka.len() && ka[i] == x;
            if i < k.len() {
                assert(k[i] == x);
            }
        }
        if l.contains(x) {
            let i = choose|i: int| 0 <= i < l.len() && l[i] == x;
            assert(la[i] == x);
        }
        if k.contains(x) {
            let i = choose|i: int| 0 <= i < k.len() && k[i] == x;
            assert(ka[i] == x);
        }
        if d.contains(x) {
            let i = choose|i: int| 0 <= i < d.len() && d[i] == x;
            assert(v[i] == x);
        }
        if v.contains(x) {
            let j = choose|j: int| 0 <= j < v.len() && v[j] == x;
            if j < d.len() {
                assert(d[j] == x);
            } else if live.contains(x) {
                assert(ka[k.len() as int] == x);
            } else {
                assert(la[l.len() as int] == x);
            }
        }
    }
}

/// Every pod that is found and was not followed is followed from now on, with the span
/// that it was found with first.
pub proof fn found_followed(followed: Seq<Seq<char>>, found: Seq<(Seq<char>, Seq<char>)>, i: int)
    requires
        0 <= i < found.len(),
        !followed.contains(found[i].0),
        forall|j: int| 0 <= j < i ==> (#[trigger] found[j]).0 != found[i].0,
    ensures
        newly_followed(followed, found).contains(found[i]),
    decreases found.len(),
{
    let d = found.drop_last();
    let rest = newly_followed(followed, d);
    let all = newly_followed(followed, found);
    if i < d.len() {
        assert(d[i] == found[i]);
        assert forall|j: int| 0 <= j < i implies (#[trigger] d[j]).0 != d[i].0 by {
            assert(d[j] == found[j]);
        }
        found_followed(followed, d, i);
        let k = choose|k: int| 0 <= k < rest.len() && rest[k] == found[i];
        assert(all[k] == found[i]);
    } else {
        assert forall|j: int| 0 <= j < d.len() implies (#[trigger] d[j]).0 != found[i].0 by {
            assert(d[j] == found[j]);
        }
        not_followed(followed, d, found[i].0);
        assert(all[rest.len() as int] == found[i]);
    }
}

proof fn not_followed(followed: Seq<Seq<char>>, found: Seq<(Seq<char>, Seq<char>)>, x: Seq<char>)
    requires
        !followed.contains(x),
        forall|j: int| 0 <= j < found.len() ==> (#[trigger] found[j]).0 != x,
    ensures
        !following(followed, found).contains(x),
    decreases found.len(),
{
    if found.len() > 0 {
        let d = found.drop_last();
        assert forall|j: int| 0 <= j < d.len() implies (#[trigger] d[j]).0 != x by {
            assert(d[j] == found[j]);
        }
        not_followed(followed, d, x);
        assert(found.last() == found[found.len() - 1]);
        let f = following(followed, d);
        let g = following(followed, found);
        if g.contains(x) {
            let i = choose|i: int| 0 <= i < g.len() && g[i] == x;
            if i < f.len() {
                assert(f[i] == x);
            }
        }
    }
}

} // verus!
