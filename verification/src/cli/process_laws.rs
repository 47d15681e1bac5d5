//! Which processes are swept, whatever runs.

use vstd::prelude::*;
use vstd::string::*;

use crate::cli::processes::{
    orphans, others, root_pids, row_of, rows_of, runs_starling, space_from, with_reaped,
};
use crate::engine::port_laws::called_by_name;
use crate::text::{dec, dec_is_digits, is_digit, is_space, occurs, parsed_dec, words};
use crate::text_laws::{
    blank, lacks, one_word, snug, trims_around, trims_front, words_apart,
};

verus! {

proof fn space_found(a: Seq<char>, c: char, b: Seq<char>, from: int)
    requires
        forall|i: int| 0 <= i < a.len() ==> !is_space(#[trigger] a[i]),
        is_space(c),
        0 <= from <= a.len(),
    ensures
        space_from(a + seq![c] + b, from) == Some(a.len() as int),
    decreases a.len() - from,
{
    let s = a + seq![c] + b;
    if from < a.len() {
        assert(s[from] == a[from]);
        space_found(a, c, b, from + 1);
    } else {
        assert(s[from] == c);
    }
}

/// A row of the process table is the number of a process, that of its parent and the
/// command, with white space between them.
#[verifier::rlimit(40)]
pub proof fn row_read(
    left: Seq<char>,
    pid: u32,
    gap: Seq<char>,
    parent: u32,
    wide: Seq<char>,
    cmd: Seq<char>,
    right: Seq<char>,
)
    requires
        blank(left),
        blank(gap),
        blank(wide),
        blank(right),
        snug(cmd),
    ensures
        row_of(
            left + dec(pid as nat) + " "@ + gap + dec(parent as nat) + " "@ + wide + cmd + right,
        ) == Some((pid, parent, cmd)),
{
    let p = dec(pid as nat);
    let q = dec(parent as nat);
    reveal_strlit(" ");
    assert(is_space(' '));
    assert(" "@ =~= seq![' ']);
    dec_is_digits(pid as nat);
    dec_is_digits(parent as nat);
    parsed_dec(pid as nat, u32::MAX as nat);
    parsed_dec(parent as nat, u32::MAX as nat);
    let tail = wide + cmd + right;
    let second = q + " "@ + tail;
    let rest = gap + second;
    let first = p + " "@ + rest;
    let line = left + dec(pid as nat) + " "@ + gap + dec(parent as nat) + " "@ + wide + cmd + right;
    assert(line =~= left + first);
    assert(first[0] == p[0]);
    assert(is_digit(p[0]));
    trims_front(left, first);
    assert forall|i: int| 0 <= i < p.len() implies !is_space(#[trigger] p[i]) by {
        assert(is_digit(p[i]));
    }
    assert forall|i: int| 0 <= i < q.len() implies !is_space(#[trigger] q[i]) by {
        assert(is_digit(q[i]));
    }
    space_found(p, ' ', rest, 0);
    assert(first.take(p.len() as int) =~= p);
    assert(first.skip((p.len() + 1) as int) =~= rest);
    assert(second[0] == q[0]);
    assert(is_digit(q[0]));
    trims_front(gap, second);
    space_found(q, ' ', tail, 0);
    assert(second.take(q.len() as int) =~= q);
    assert(second.skip((q.len() + 1) as int) =~= tail);
    trims_around(wide, cmd, right);
}

/// The table has a row for every line that is one, in order.
pub proof fn rows_read(a: Seq<Seq<char>>, l: Seq<char>)
    ensures
        row_of(l) matches Some(r) ==> rows_of(a.push(l)) == rows_of(a).push(r),
        row_of(l) is None ==> rows_of(a.push(l)) == rows_of(a),
        rows_of(Seq::empty()).len() == 0,
{
    assert(a.push(l).drop_last() =~= a);
}

/// A process is one of ours just where its program is called so, wherever it lies and
/// whatever its arguments are.
pub proof fn ours_told(dir: Seq<char>, gap: Seq<char>, args: Seq<char>, name: Seq<char>)
    requires
        blank(gap),
        gap.len() > 0,
        forall|i: int| 0 <= i < dir.len() ==> !is_space(#[trigger] dir[i]),
        forall|i: int| 0 <= i < name.len() ==> !is_space(#[trigger] name[i]),
        name.len() > 0,
        lacks(name, '/'),
    ensures
        runs_starling(name + gap + args) <==> name == "starling"@,
        runs_starling(dir + "/"@ + name + gap + args) <==> name == "starling"@,
        runs_starling(name) <==> name == "starling"@,
{
    called_by_name(dir, name);
    reveal_strlit("/");
    let full = dir + "/"@ + name;
    assert forall|i: int| 0 <= i < full.len() implies !is_space(#[trigger] full[i]) by {
        if i < dir.len() {
            assert(full[i] == dir[i]);
        } else if i > dir.len() {
            assert(full[i] == name[i - dir.len() - 1]);
        }
    }
    one_word(name, gap);
    one_word(full, gap);
    words_apart(name, gap, args);
    words_apart(full, gap, args);
    assert((seq![name] + words(args))[0] == name);
    assert((seq![full] + words(args))[0] == full);
}

/// The processes that a sweep starts from are all of ours but the one that sweeps.
pub proof fn roots_told(a: Seq<(u32, u32, Seq<char>)>, row: (u32, u32, Seq<char>), own: u32)
    ensures
        row.0 != own && runs_starling(row.2) ==> root_pids(a.push(row), own) == root_pids(
            a,
            own,
        ).push(row.0),
        row.0 == own || !runs_starling(row.2) ==> root_pids(a.push(row), own) == root_pids(a, own),
        root_pids(Seq::empty(), own).len() == 0,
{
    assert(a.push(row).drop_last() =~= a);
}

/// What was left behind are forwards and logs of ours that lost their parent, and nothing
/// that still has one.
pub proof fn left_behind_told(a: Seq<(u32, u32, Seq<char>)>, row: (u32, u32, Seq<char>))
    ensures
        row.1 != 1 ==> orphans(a.push(row)) == orphans(a),
        !occurs(row.2, "kubectl"@) ==> orphans(a.push(row)) == orphans(a),
        row.1 == 1 && occurs(row.2, "kubectl"@) && occurs(row.2, "port-forward"@) && occurs(
            row.2,
            "--address"@,
        ) ==> orphans(a.push(row)) == orphans(a).push((row.0, row.2)),
        row.1 == 1 && occurs(row.2, "kubectl"@) && occurs(row.2, "logs"@) && occurs(row.2, "-f"@)
            && occurs(row.2, "--all-containers"@) ==> orphans(a.push(row)) == orphans(a).push(
            (row.0, row.2),
        ),
        !occurs(row.2, "port-forward"@) && !occurs(row.2, "logs"@) ==> orphans(a.push(row))
            == orphans(a),
        orphans(Seq::empty()).len() == 0,
{
    assert(a.push(row).drop_last() =~= a);
}

/// Everything that was to be swept is, and everything that was left behind too, but for the
/// process that sweeps.
pub proof fn sweep_complete(targets: Seq<u32>, o: Seq<(u32, Seq<char>)>, own: u32, x: u32)
    ensures
        others(with_reaped(targets, o), own).contains(x) <==> x != own && (targets.contains(x) || (
        exists|i: int| 0 <= i < o.len() && (#[trigger] o[i]).0 == x)),
{
    others_told(with_reaped(targets, o), own, x);
    reaped_told(targets, o, x);
}

proof fn others_told(v: Seq<u32>, own: u32, x: u32)
    ensures
        others(v, own).contains(x) <==> v.contains(x) && x != own,
    decreases v.len(),
{
    if v.len() > 0 {
        let d = v.drop_last();
        let rest = others(d, own);
        let all = others(v, own);
        others_told(d, own, x);
        assert(v.last() == v[v.len() - 1]);
        if all.contains(x) && !rest.contains(x) {
            let i = choose|i: int| 0 <= i < all.len() && all[i] == x;
            if i < rest.len() {
                assert(rest[i] == x);
            }
        }
        if rest.contains(x) {
            let i = choose|i: int| 0 <= i < rest.len() && rest[i] == x;
            assert(all[i] == x);
            let j = choose|j: int| 0 <= j < d.len() && d[j] == x;
            assert(v[j] == x);
        }
        if v.contains(x) && x != own {
            let j = choose|j: int| 0 <= j < v.len() && v[j] == x;
            if j < d.len() {
                assert(d[j] == x);
            } else {
                assert(all[rest.len() as int] == x);
            }
        }
    }
}

proof fn reaped_told(targets: Seq<u32>, o: Seq<(u32, Seq<char>)>, x: u32)
    ensures
        with_reaped(targets, o).contains(x) <==> targets.contains(x) || exists|i: int|
            0 <= i < o.len() && (#[trigger] o[i]).0 == x,
    decreases o.len(),
{
    if o.len() > 0 {
        let d = o.drop_last();
        let t = with_reaped(targets, d);
        let all = with_reaped(targets, o);
        reaped_told(targets, d, x);
        assert(o.last() == o[o.len() - 1]);
        if all.contains(x) && !t.contains(x) {
            let i = choose|i: int| 0 <= i < all.len() && all[i] == x;
            if i < t.len() {
                assert(t[i] == x);
            }
        }
        if t.contains(x) {
            let i = choose|i: int| 0 <= i < t.len() && t[i] == x;
            assert(all[i] == x);
            if !targets.contains(x) {
                let j = choose|j: int| 0 <= j < d.len() && (#[trigger] d[j]).0 == x;
                assert(o[j] == d[j]);
            }
        }
        if exists|i: int| 0 <= i < o.len() && (#[trigger] o[i]).0 == x {
            let i = choose|i: int| 0 <= i < o.len() && (#[trigger] o[i]).0 == x;
            if i < d.len() {
                assert(d[i] == o[i]);
            } else if !t.contains(x) {
                assert(all[t.len() as int] == x);
            }
        }
    }
}

} // verus!
