//! The processes of the machine that belong to this program.

use vstd::prelude::*;
use vstd::string::*;
use vstd::utf8::{encode_utf8, is_char_boundary};

use crate::engine::ports::{base_name, base_name_of};
use crate::text::{
    byte_prefix, cat, chars_of, first_bytes, has, is_space, lines, lines_of, occurs, owned,
    parse_uint, parsed, same, slice_text, space, texts, trim, trim_front, trimmed, trimmed_front,
    words, words_of, Class,
};

verus! {

/// A process: its number, that of its parent, and its command line.
pub type ProcessRow = (u32, u32, String);

/// The index of the first white space, not before `i`.
pub open spec fn space_from(s: Seq<char>, i: int) -> Option<int>
    decreases s.len() - i,
{
    if i < 0 || i >= s.len() {
        None
    } else if is_space(s[i]) {
        Some(i)
    } else {
        space_from(s, i + 1)
    }
}

/// What stands before and behind the first white space, which is one character.
pub open spec fn cut_at_space(s: Seq<char>) -> Option<(Seq<char>, Seq<char>)> {
    match space_from(s, 0) {
        Some(i) => Some((s.take(i), s.skip(i + 1))),
        None => None,
    }
}

fn cut_space(s: &str) -> (r: Option<(String, String)>)
    ensures
        match r {
            Some((a, b)) => cut_at_space(s@) == Some((a@, b@)),
            None => cut_at_space(s@) is None,
        },
{
    let c = chars_of(s);
    let len: usize = c.len();
    let mut i: usize = 0;
    while i < len
        invariant
            len == c@.len(),
            i <= len,
            c@ == s@,
            space_from(c@, 0) == space_from(c@, i as int),
        decreases len - i,
    {
        if space(c[i]) {
            assert(c@.subrange(0, i as int) =~= c@.take(i as int));
            assert(c@.subrange(i + 1, len as int) =~= c@.skip(i + 1));
            return Some((slice_text(&c, 0, i), slice_text(&c, i + 1, len)));
        }
        i += 1;
    }
    None
}

/// A row of a table of processes: the number of a process, that of its parent, and
/// its command line.
pub open spec fn row_of(line: Seq<char>) -> Option<(u32, u32, Seq<char>)> {
    match cut_at_space(trim_front(line, Class::Space)) {
        None => None,
        Some((pid, rest)) => match cut_at_space(trim_front(rest, Class::Space)) {
            None => None,
            Some((ppid, cmd)) => match (
                parsed(pid, u32::MAX as nat),
                parsed(ppid, u32::MAX as nat),
            ) {
                (Some(p), Some(q)) => Some((p as u32, q as u32, trim(cmd))),
                _ => None,
            },
        },
    }
}

/// Reads a row of a table of processes.
pub fn parse_ps_row(line: &str) -> (r: Option<(u32, u32, String)>)
    ensures
        match r {
            Some((p, q, cmd)) => row_of(line@) == Some((p, q, cmd@)),
            None => row_of(line@) is None,
        },
{
    match cut_space(trimmed_front(line, Class::Space).as_str()) {
        None => None,
        Some((pid, rest)) => match cut_space(trimmed_front(rest.as_str(), Class::Space).as_str()) {
            None => None,
            Some((ppid, cmd)) => {
                match parse_uint(pid.as_str(), u32::MAX as u64) {
                    None => None,
                    Some(p) => match parse_uint(ppid.as_str(), u32::MAX as u64) {
                        None => None,
                        Some(q) => Some((p as u32, q as u32, trimmed(cmd.as_str()))),
                    },
                }
            },
        },
    }
}

/// A table of processes as a mathematical object.
pub open spec fn table_view(v: Seq<(u32, u32, String)>) -> Seq<(u32, u32, Seq<char>)> {
    v.map_values(|e: (u32, u32, String)| (e.0, e.1, e.2@))
}

/// The rows of a table of processes, lines that are none left out.
pub open spec fn rows_of(l: Seq<Seq<char>>) -> Seq<(u32, u32, Seq<char>)>
    decreases l.len(),
{
    if l.len() == 0 {
        Seq::empty()
    } else {
        match row_of(l.last()) {
            Some(r) => rows_of(l.drop_last()).push(r),
            None => rows_of(l.drop_last()),
        }
    }
}

/// Reads a table of processes, as `ps` prints it.
pub fn process_table(text: &str) -> (r: Vec<(u32, u32, String)>)
    ensures
        table_view(r@) == rows_of(lines(text@)),
{
    let l = lines_of(text);
    let ghost all = texts(l@);
    let mut r: Vec<(u32, u32, String)> = Vec::new();
    let mut i: usize = 0;
    assert(table_view(r@) =~= rows_of(all.take(0)));
    while i < l.len()
        invariant
            i <= l@.len(),
            all == texts(l@),
            table_view(r@) == rows_of(all.take(i as int)),
        decreases l@.len() - i,
    {
        assert(all.take(i + 1).drop_last() =~= all.take(i as int));
        assert(all.take(i + 1).last() == l@[i as int]@);
        if let Some(row) = parse_ps_row(l[i].as_str()) {
            let ghost before = table_view(r@);
            let ghost e = (row.0, row.1, row.2@);
            r.push(row);
            assert(table_view(r@) =~= before.push(e));
        }
        i += 1;
    }
    assert(all.take(i as int) =~= all);
    r
}

/// Whether a command line runs this program, however its path is written.
pub open spec fn runs_starling(cmd: Seq<char>) -> bool {
    words(cmd).len() > 0 && base_name(words(cmd)[0]) == "starling"@
}

/// The processes that run this program, but for one.
pub open spec fn root_pids(table: Seq<(u32, u32, Seq<char>)>, self_pid: u32) -> Seq<u32>
    decreases table.len(),
{
    if table.len() == 0 {
        Seq::empty()
    } else {
        let rest = root_pids(table.drop_last(), self_pid);
        let (pid, _, cmd) = table.last();
        if pid != self_pid && runs_starling(cmd) {
            rest.push(pid)
        } else {
            rest
        }
    }
}

fn is_starling(cmd: &str) -> (r: bool)
    ensures
        r == runs_starling(cmd@),
{
    let w = words_of(cmd);
    if w.len() == 0 {
        return false;
    }
    assert(texts(w@)[0] == w@[0]@);
    same(base_name_of(w[0].as_str()).as_str(), "starling")
}

/// The processes that run this program, but for the given one.
pub fn starling_root_pids(table: &Vec<(u32, u32, String)>, self_pid: u32) -> (r: Vec<u32>)
    ensures
        r@ == root_pids(table_view(table@), self_pid),
{
    let ghost all = table_view(table@);
    let mut r: Vec<u32> = Vec::new();
    let mut i: usize = 0;
    assert(r@ =~= root_pids(all.take(0), self_pid));
    while i < table.len()
        invariant
            i <= table@.len(),
            all == table_view(table@),
            r@ == root_pids(all.take(i as int), self_pid),
        decreases table@.len() - i,
    {
        assert(all.take(i + 1).drop_last() =~= all.take(i as int));
        assert(all.take(i + 1).last() == all[i as int]);
        if table[i].0 != self_pid && is_starling(table[i].2.as_str()) {
            r.push(table[i].0);
        }
        i += 1;
    }
    assert(all.take(i as int) =~= all);
    r
}

/// The children of a process, in the order of the table.
pub open spec fn kids(table: Seq<(u32, u32, Seq<char>)>, p: u32) -> Seq<u32>
    decreases table.len(),
{
    if table.len() == 0 {
        Seq::empty()
    } else if table.last().1 == p {
        kids(table.drop_last(), p).push(table.last().0)
    } else {
        kids(table.drop_last(), p)
    }
}

/// Numbers with those of a list that are not among them behind them, each once.
pub open spec fn with_new(seen: Seq<u32>, list: Seq<u32>) -> Seq<u32>
    decreases list.len(),
{
    if list.len() == 0 {
        seen
    } else {
        let s = with_new(seen, list.drop_last());
        if s.contains(list.last()) {
            s
        } else {
            s.push(list.last())
        }
    }
}

/// The processes that were reached, and those that are reached from them, from the one
/// at index `i` on: breadth first. No more than `bound` of them are looked at.
pub open spec fn reached(
    table: Seq<(u32, u32, Seq<char>)>,
    seen: Seq<u32>,
    i: int,
    bound: int,
) -> Seq<u32>
    decreases bound - i,
{
    if i < 0 || i >= seen.len() || i >= bound {
        seen
    } else {
        reached(table, with_new(seen, kids(table, seen[i])), i + 1, bound)
    }
}

/// The descendants of processes, breadth first, parents before children, without
/// those processes themselves.
pub open spec fn descendants(table: Seq<(u32, u32, Seq<char>)>, roots: Seq<u32>) -> Seq<u32> {
    reached(table, roots, 0, (roots.len() + table.len()) as int).skip(roots.len() as int)
}

fn holds(v: &Vec<u32>, x: u32) -> (r: bool)
    ensures
        r == v@.contains(x),
{
    let mut i: usize = 0;
    while i < v.len()
        invariant
            i <= v@.len(),
            forall|j: int| 0 <= j < i ==> v@[j] != x,
        decreases v@.len() - i,
    {
        if v[i] == x {
            return true;
        }
        i += 1;
    }
    false
}

fn push_kids(seen: &mut Vec<u32>, table: &Vec<(u32, u32, String)>, p: u32)
    ensures
        final(seen)@ == with_new(old(seen)@, kids(table_view(table@), p)),
{
    let ghost all = table_view(table@);
    let ghost before = seen@;
    let mut i: usize = 0;
    assert(kids(all.take(0), p) =~= Seq::empty());
    while i < table.len()
        invariant
            i <= table@.len(),
            all == table_view(table@),
            seen@ == with_new(before, kids(all.take(i as int), p)),
        decreases table@.len() - i,
    {
        let ghost k = kids(all.take(i as int), p);
        proof {
            assert(all.take(i + 1).drop_last() =~= all.take(i as int));
            assert(all.take(i + 1).last() == all[i as int]);
        }
        if table[i].1 == p {
            let pid: u32 = table[i].0;
            assert(k.push(pid).drop_last() =~= k);
            if !holds(seen, pid) {
                seen.push(pid);
            }
        }
        i += 1;
    }
    assert(all.take(i as int) =~= all);
}

/// The descendants of processes, breadth first, parents before children, without
/// those processes themselves.
pub fn descendants_of(roots: &Vec<u32>, table: &Vec<(u32, u32, String)>) -> (r: Vec<u32>)
    ensures
        r@ == descendants(table_view(table@), roots@),
{
    let ghost t = table_view(table@);
    let ghost bound = (roots@.len() + table@.len()) as int;
    let mut seen: Vec<u32> = Vec::new();
    let n: usize = roots.len();
    let mut k: usize = 0;
    while k < n
        invariant
            k <= n,
            n == roots@.len(),
            seen@ == roots@.take(k as int),
        decreases n - k,
    {
        seen.push(roots[k]);
        assert(roots@.take(k + 1) =~= roots@.take(k as int).push(roots@[k as int]));
        k += 1;
    }
    assert(roots@.take(k as int) =~= roots@);
    let mut i: usize = 0;
    proof {
        roots_within(t, roots@);
        within_bound(t, roots@, seen@);
    }
    while i < seen.len()
        invariant
            i <= seen@.len(),
            t == table_view(table@),
            bound == roots@.len() + t.len(),
            within(t, roots@, seen@),
            seen@.len() <= bound,
            reached(t, roots@, 0, bound) == reached(t, seen@, i as int, bound),
        decreases bound - i,
    {
        let p: u32 = seen[i];
        proof {
            kids_within(t, roots@, seen@, i as int);
            within_bound(t, roots@, with_new(seen@, kids(t, p)));
        }
        push_kids(&mut seen, table, p);
        i += 1;
    }
    let mut r: Vec<u32> = Vec::new();
    let mut j: usize = n;
    while j < seen.len()
        invariant
            n <= j <= seen@.len(),
            n == roots@.len(),
            r@ == seen@.subrange(n as int, j as int),
        decreases seen@.len() - j,
    {
        r.push(seen[j]);
        assert(seen@.subrange(n as int, j + 1) =~= seen@.subrange(n as int, j as int).push(
            seen@[j as int],
        ));
        j += 1;
    }
    assert(seen@.subrange(n as int, j as int) =~= seen@.skip(n as int));
    r
}

/// Whether a process is a child of another.
pub open spec fn is_child(table: Seq<(u32, u32, Seq<char>)>, x: u32, p: u32) -> bool {
    exists|k: int| 0 <= k < table.len() && (#[trigger] table[k]).0 == x && table[k].1 == p
}

/// Whether a process descends from others in so many steps.
pub open spec fn descends_by(
    table: Seq<(u32, u32, Seq<char>)>,
    roots: Seq<u32>,
    x: u32,
    n: nat,
) -> bool
    decreases n,
{
    if n == 0 {
        exists|p: u32| #[trigger] is_child(table, x, p) && roots.contains(p)
    } else {
        exists|p: u32| #[trigger]
            is_child(table, x, p) && descends_by(table, roots, p, (n - 1) as nat)
    }
}

/// Whether a process descends from others.
pub open spec fn descends(table: Seq<(u32, u32, Seq<char>)>, roots: Seq<u32>, x: u32) -> bool {
    exists|n: nat| descends_by(table, roots, x, n)
}

/// Whether a parent of the one at index `i` stands before it.
pub open spec fn behind_parent(table: Seq<(u32, u32, Seq<char>)>, seen: Seq<u32>, i: int) -> bool {
    exists|j: int| 0 <= j < i && is_child(table, seen[i], #[trigger] seen[j])
}

/// Whether what was seen starts with the given processes, and is followed by others,
/// each once, each a descendant whose parent was seen before it.
spec fn within(table: Seq<(u32, u32, Seq<char>)>, roots: Seq<u32>, seen: Seq<u32>) -> bool {
    &&& roots.is_prefix_of(seen)
    &&& forall|i: int|
        roots.len() <= i < seen.len() ==> #[trigger] behind_parent(table, seen, i) && descends(
            table,
            roots,
            seen[i],
        ) && !roots.contains(seen[i])
    &&& seen.skip(roots.len() as int).no_duplicates()
}

proof fn kids_are(table: Seq<(u32, u32, Seq<char>)>, p: u32, x: u32)
    ensures
        kids(table, p).contains(x) <==> is_child(table, x, p),
    decreases table.len(),
{
    if table.len() > 0 {
        let d = table.drop_last();
        let l = table.last();
        let q = kids(d, p);
        let r = kids(table, p);
        kids_are(d, p, x);
        if exists|i: int| 0 <= i < d.len() && (#[trigger] d[i]).0 == x && d[i].1 == p {
            let i = choose|i: int| 0 <= i < d.len() && (#[trigger] d[i]).0 == x && d[i].1 == p;
            assert(table[i] == d[i]);
        }
        if exists|i: int| 0 <= i < table.len() && (#[trigger] table[i]).0 == x && table[i].1 == p {
            let i = choose|i: int|
                0 <= i < table.len() && (#[trigger] table[i]).0 == x && table[i].1 == p;
            if i < d.len() {
                assert(d[i] == table[i]);
            }
        }
        assert(table[table.len() - 1] == l);
        if l.1 == p {
            assert(r[r.len() - 1] == l.0);
            if q.contains(x) {
                let i = choose|i: int| 0 <= i < q.len() && q[i] == x;
                assert(r[i] == x);
            }
            if r.contains(x) {
                let i = choose|i: int| 0 <= i < r.len() && r[i] == x;
                if i < q.len() {
                    assert(q[i] == x);
                }
            }
        }
    }
}

proof fn with_new_holds(seen: Seq<u32>, list: Seq<u32>, x: u32)
    ensures
        with_new(seen, list).contains(x) <==> seen.contains(x) || list.contains(x),
        seen.is_prefix_of(with_new(seen, list)),
    decreases list.len(),
{
    if list.len() > 0 {
        let d = list.drop_last();
        let s = with_new(seen, d);
        let r = with_new(seen, list);
        with_new_holds(seen, d, x);
        assert(list[list.len() - 1] == list.last());
        if d.contains(x) {
            let i = choose|i: int| 0 <= i < d.len() && d[i] == x;
            assert(list[i] == x);
        }
        if list.contains(x) {
            let i = choose|i: int| 0 <= i < list.len() && list[i] == x;
            if i < d.len() {
                assert(d[i] == x);
            }
        }
        if !s.contains(list.last()) {
            assert(r[r.len() - 1] == list.last());
            if s.contains(x) {
                let i = choose|i: int| 0 <= i < s.len() && s[i] == x;
                assert(r[i] == x);
            }
            if r.contains(x) {
                let i = choose|i: int| 0 <= i < r.len() && r[i] == x;
                if i < s.len() {
                    assert(s[i] == x);
                }
            }
        }
    }
}

proof fn prefix_holds(a: Seq<u32>, b: Seq<u32>, i: int)
    requires
        a.is_prefix_of(b),
        0 <= i < a.len(),
    ensures
        b[i] == a[i],
        a.contains(b[i]),
{
    assert(b.subrange(0, a.len() as int)[i] == b[i]);
}

proof fn child_descends(
    table: Seq<(u32, u32, Seq<char>)>,
    roots: Seq<u32>,
    seen: Seq<u32>,
    x: u32,
    j: int,
)
    requires
        within(table, roots, seen),
        0 <= j < seen.len(),
        is_child(table, x, seen[j]),
    ensures
        descends(table, roots, x),
{
    let p = seen[j];
    if j < roots.len() {
        prefix_holds(roots, seen, j);
        assert(descends_by(table, roots, x, 0));
    } else {
        assert(behind_parent(table, seen, j));
        let n = choose|n: nat| descends_by(table, roots, p, n);
        assert(descends_by(table, roots, x, n + 1));
    }
}

proof fn one_more_within(
    table: Seq<(u32, u32, Seq<char>)>,
    roots: Seq<u32>,
    seen: Seq<u32>,
    x: u32,
    j: int,
)
    requires
        within(table, roots, seen),
        !seen.contains(x),
        0 <= j < seen.len(),
        is_child(table, x, seen[j]),
    ensures
        within(table, roots, seen.push(x)),
{
    let r = seen.push(x);
    child_descends(table, roots, seen, x, j);
    assert(roots.is_prefix_of(r)) by {
        assert(r.subrange(0, roots.len() as int) =~= seen.subrange(0, roots.len() as int));
    }
    assert forall|i: int| roots.len() <= i < r.len() implies #[trigger] behind_parent(table, r, i)
        && descends(table, roots, r[i]) && !roots.contains(r[i]) by {
        if i < seen.len() {
            assert(behind_parent(table, seen, i));
            let k = choose|k: int| 0 <= k < i && is_child(table, seen[i], #[trigger] seen[k]);
            assert(is_child(table, r[i], r[k]));
        } else {
            assert(is_child(table, r[i], r[j]));
            if roots.contains(x) {
                let h = choose|h: int| 0 <= h < roots.len() && roots[h] == x;
                prefix_holds(roots, seen, h);
                assert(seen[h] == x);
            }
        }
    }
    let old_part = seen.skip(roots.len() as int);
    let new_part = r.skip(roots.len() as int);
    assert(new_part =~= old_part.push(x));
    assert forall|a: int, b: int| 0 <= a < b < new_part.len() implies new_part[a] != new_part[b] by {
        assert(new_part[a] == seen[roots.len() + a]);
        if b < old_part.len() {
            assert(old_part[a] != old_part[b]);
        } else {
            assert(seen.contains(seen[roots.len() + a]));
        }
    }
}

proof fn new_within(
    table: Seq<(u32, u32, Seq<char>)>,
    roots: Seq<u32>,
    seen: Seq<u32>,
    j: int,
    list: Seq<u32>,
)
    requires
        within(table, roots, seen),
        0 <= j < seen.len(),
        forall|x: u32| #[trigger] list.contains(x) ==> is_child(table, x, seen[j]),
    ensures
        within(table, roots, with_new(seen, list)),
        seen.is_prefix_of(with_new(seen, list)),
    decreases list.len(),
{
    if list.len() > 0 {
        let d = list.drop_last();
        let x = list.last();
        assert forall|y: u32| #[trigger] d.contains(y) implies is_child(table, y, seen[j]) by {
            let i = choose|i: int| 0 <= i < d.len() && d[i] == y;
            assert(list[i] == y);
            assert(list.contains(y));
        }
        new_within(table, roots, seen, j, d);
        let s = with_new(seen, d);
        if !s.contains(x) {
            assert(list[list.len() - 1] == x);
            assert(list.contains(x));
            assert(s[j] == seen[j]) by {
                assert(s.subrange(0, seen.len() as int)[j] == s[j]);
            }
            one_more_within(table, roots, s, x, j);
            assert(s.push(x).subrange(0, seen.len() as int) =~= s.subrange(0, seen.len() as int));
        }
    }
}

proof fn kids_within(table: Seq<(u32, u32, Seq<char>)>, roots: Seq<u32>, seen: Seq<u32>, j: int)
    requires
        within(table, roots, seen),
        0 <= j < seen.len(),
    ensures
        within(table, roots, with_new(seen, kids(table, seen[j]))),
        seen.is_prefix_of(with_new(seen, kids(table, seen[j]))),
        seen.len() <= with_new(seen, kids(table, seen[j])).len(),
{
    let list = kids(table, seen[j]);
    assert forall|x: u32| #[trigger] list.contains(x) implies is_child(table, x, seen[j]) by {
        kids_are(table, seen[j], x);
    }
    new_within(table, roots, seen, j, list);
}

proof fn within_bound(table: Seq<(u32, u32, Seq<char>)>, roots: Seq<u32>, seen: Seq<u32>)
    requires
        within(table, roots, seen),
    ensures
        seen.len() <= roots.len() + table.len(),
{
    let new = seen.skip(roots.len() as int);
    let pids = table.map_values(|e: (u32, u32, Seq<char>)| e.0);
    new.unique_seq_to_set();
    pids.lemma_cardinality_of_set();
    assert forall|x: u32| new.to_set().contains(x) implies #[trigger] pids.to_set().contains(x) by {
        let i = choose|i: int| 0 <= i < new.len() && new[i] == x;
        let at = roots.len() + i;
        assert(seen[at] == x);
        assert(behind_parent(table, seen, at));
        let j = choose|j: int| 0 <= j < at && is_child(table, seen[at], #[trigger] seen[j]);
        let k = choose|k: int|
            0 <= k < table.len() && (#[trigger] table[k]).0 == x && table[k].1 == seen[j];
        assert(pids[k] == x);
    }
    assert(new.to_set().subset_of(pids.to_set()));
    vstd::set_lib::lemma_len_subset(new.to_set(), pids.to_set());
}

/// Whether the children of the one at an index were seen.
spec fn kids_seen(table: Seq<(u32, u32, Seq<char>)>, seen: Seq<u32>, j: int) -> bool {
    forall|x: u32| #[trigger] kids(table, seen[j]).contains(x) ==> seen.contains(x)
}

/// Whether every child of the first `i` that were seen was seen.
spec fn closed_to(table: Seq<(u32, u32, Seq<char>)>, seen: Seq<u32>, i: int) -> bool {
    forall|j: int| 0 <= j < i && j < seen.len() ==> #[trigger] kids_seen(table, seen, j)
}

proof fn closed_grows(table: Seq<(u32, u32, Seq<char>)>, seen: Seq<u32>, i: int)
    requires
        0 <= i < seen.len(),
        closed_to(table, seen, i),
        seen.is_prefix_of(with_new(seen, kids(table, seen[i]))),
    ensures
        closed_to(table, with_new(seen, kids(table, seen[i])), i + 1),
{
    let list = kids(table, seen[i]);
    let next = with_new(seen, list);
    assert forall|j: int| 0 <= j < i + 1 && j < next.len() implies #[trigger] kids_seen(
        table,
        next,
        j,
    ) by {
        prefix_holds(seen, next, j);
        assert forall|x: u32| #[trigger] kids(table, next[j]).contains(x) implies next.contains(
            x,
        ) by {
            with_new_holds(seen, list, x);
            if j < i {
                assert(kids_seen(table, seen, j));
                assert(kids(table, seen[j]).contains(x));
            }
        }
    }
}

proof fn reached_all(
    table: Seq<(u32, u32, Seq<char>)>,
    roots: Seq<u32>,
    seen: Seq<u32>,
    i: int,
    bound: int,
)
    requires
        within(table, roots, seen),
        0 <= i <= seen.len(),
        bound == roots.len() + table.len(),
        closed_to(table, seen, i),
    ensures
        within(table, roots, reached(table, seen, i, bound)),
        closed_to(
            table,
            reached(table, seen, i, bound),
            reached(table, seen, i, bound).len() as int,
        ),
    decreases bound - i,
{
    within_bound(table, roots, seen);
    if i < seen.len() {
        kids_within(table, roots, seen, i);
        closed_grows(table, seen, i);
        reached_all(table, roots, with_new(seen, kids(table, seen[i])), i + 1, bound);
    }
}

proof fn closed_holds(
    table: Seq<(u32, u32, Seq<char>)>,
    roots: Seq<u32>,
    seen: Seq<u32>,
    x: u32,
    n: nat,
)
    requires
        within(table, roots, seen),
        closed_to(table, seen, seen.len() as int),
        descends_by(table, roots, x, n),
    ensures
        seen.contains(x),
    decreases n,
{
    let p = if n == 0 {
        choose|p: u32| #[trigger] is_child(table, x, p) && roots.contains(p)
    } else {
        choose|p: u32| #[trigger]
            is_child(table, x, p) && descends_by(table, roots, p, (n - 1) as nat)
    };
    if n == 0 {
        let h = choose|h: int| 0 <= h < roots.len() && roots[h] == p;
        prefix_holds(roots, seen, h);
        assert(seen[h] == p);
    } else {
        closed_holds(table, roots, seen, p, (n - 1) as nat);
    }
    let j = choose|j: int| 0 <= j < seen.len() && seen[j] == p;
    kids_are(table, p, x);
    assert(kids_seen(table, seen, j));
    assert(kids(table, seen[j]).contains(x));
}

proof fn roots_within(table: Seq<(u32, u32, Seq<char>)>, roots: Seq<u32>)
    ensures
        within(table, roots, roots),
{
    assert(roots.subrange(0, roots.len() as int) =~= roots);
    assert(roots.skip(roots.len() as int) =~= Seq::empty());
}

/// The descendants of processes are those that descend from them and are none of them,
/// each once.
pub proof fn descendants_exact(table: Seq<(u32, u32, Seq<char>)>, roots: Seq<u32>)
    ensures
        forall|x: u32| #[trigger]
            descendants(table, roots).contains(x) <==> descends(table, roots, x)
                && !roots.contains(x),
        descendants(table, roots).no_duplicates(),
{
    let bound = (roots.len() + table.len()) as int;
    let seen = reached(table, roots, 0, bound);
    let out = descendants(table, roots);
    roots_within(table, roots);
    reached_all(table, roots, roots, 0, bound);
    assert forall|x: u32| #[trigger] out.contains(x) <==> descends(table, roots, x)
        && !roots.contains(x) by {
        if out.contains(x) {
            let i = choose|i: int| 0 <= i < out.len() && out[i] == x;
            assert(seen[roots.len() + i] == x);
            assert(behind_parent(table, seen, roots.len() + i));
        }
        if descends(table, roots, x) && !roots.contains(x) {
            let n = choose|n: nat| descends_by(table, roots, x, n);
            closed_holds(table, roots, seen, x, n);
            let i = choose|i: int| 0 <= i < seen.len() && seen[i] == x;
            if i < roots.len() {
                prefix_holds(roots, seen, i);
            }
            assert(out[i - roots.len()] == x);
        }
    }
}

/// A descendant stands behind its parent, unless that is one of the processes that it
/// is a descendant of.
pub proof fn descendants_behind_parents(
    table: Seq<(u32, u32, Seq<char>)>,
    roots: Seq<u32>,
    i: int,
)
    requires
        0 <= i < descendants(table, roots).len(),
    ensures
        exists|p: u32| #[trigger]
            is_child(table, descendants(table, roots)[i], p) && (roots.contains(p) || descendants(
                table,
                roots,
            ).take(i).contains(p)),
{
    let bound = (roots.len() + table.len()) as int;
    let seen = reached(table, roots, 0, bound);
    let out = descendants(table, roots);
    roots_within(table, roots);
    reached_all(table, roots, roots, 0, bound);
    let at = roots.len() + i;
    assert(out[i] == seen[at]);
    assert(behind_parent(table, seen, at));
    let j = choose|j: int| 0 <= j < at && is_child(table, seen[at], #[trigger] seen[j]);
    let p = seen[j];
    assert(is_child(table, out[i], p));
    if j < roots.len() {
        prefix_holds(roots, seen, j);
    } else {
        assert(out.take(i)[j - roots.len()] == p);
    }
}

/// Whether a process without its parent has a command line such as this program
/// starts: one that forwards a port of a pod, or follows its logs.
pub open spec fn is_orphan(row: (u32, u32, Seq<char>)) -> bool {
    let cmd = row.2;
    &&& row.1 == 1
    &&& occurs(cmd, "kubectl"@)
    &&& ((occurs(cmd, "port-forward"@) && occurs(cmd, "--address"@)) || (occurs(cmd, "logs"@)
        && occurs(cmd, "-f"@) && occurs(cmd, "--all-containers"@)))
}

/// The processes without their parents that this program started, and their command
/// lines.
pub open spec fn orphans(table: Seq<(u32, u32, Seq<char>)>) -> Seq<(u32, Seq<char>)>
    decreases table.len(),
{
    if table.len() == 0 {
        Seq::empty()
    } else if is_orphan(table.last()) {
        orphans(table.drop_last()).push((table.last().0, table.last().2))
    } else {
        orphans(table.drop_last())
    }
}

/// Processes and their command lines.
pub open spec fn named_pids(v: Seq<(u32, String)>) -> Seq<(u32, Seq<char>)> {
    v.map_values(|e: (u32, String)| (e.0, e.1@))
}

/// The processes without their parents that this program started, and their command
/// lines.
pub fn orphaned_starling_kubectl(table: &Vec<(u32, u32, String)>) -> (r: Vec<(u32, String)>)
    ensures
        named_pids(r@) == orphans(table_view(table@)),
{
    let ghost all = table_view(table@);
    let mut r: Vec<(u32, String)> = Vec::new();
    let mut i: usize = 0;
    assert(named_pids(r@) =~= orphans(all.take(0)));
    while i < table.len()
        invariant
            i <= table@.len(),
            all == table_view(table@),
            named_pids(r@) == orphans(all.take(i as int)),
        decreases table@.len() - i,
    {
        proof {
            assert(all.take(i + 1).drop_last() =~= all.take(i as int));
            assert(all.take(i + 1).last() == all[i as int]);
        }
        let cmd = table[i].2.as_str();
        if table[i].1 == 1 && has(cmd, "kubectl") {
            let forward = has(cmd, "port-forward") && has(cmd, "--address");
            let follow = has(cmd, "logs") && has(cmd, "-f") && has(cmd, "--all-containers");
            if forward || follow {
                let ghost before = named_pids(r@);
                let pid: u32 = table[i].0;
                r.push((pid, table[i].2.clone()));
                assert(named_pids(r@) =~= before.push((pid, cmd@)));
            }
        }
        i += 1;
    }
    assert(all.take(i as int) =~= all);
    r
}

/// The number of bytes of a command line that are shown.
pub const SHORT_CMD: usize = 80;

/// Whether a command line can be cut behind the bytes that are shown.
pub open spec fn short_cuts(cmd: Seq<char>) -> bool {
    encode_utf8(cmd).len() <= SHORT_CMD || is_char_boundary(encode_utf8(cmd), SHORT_CMD as int)
}

/// Whether a command line can be cut behind the bytes that are shown.
pub fn can_shorten(cmd: &str) -> (r: bool)
    ensures
        r == short_cuts(cmd@),
{
    cmd.as_bytes().len() <= SHORT_CMD || cmd.is_char_boundary(SHORT_CMD)
}

/// A command line, cut where it is long.
pub fn short_cmd(cmd: &str) -> (r: String)
    requires
        short_cuts(cmd@),
    ensures
        r@ == (if encode_utf8(cmd@).len() <= SHORT_CMD {
            cmd@
        } else {
            byte_prefix(cmd@, SHORT_CMD as int) + "\u{2026}"@
        }),
{
    if cmd.as_bytes().len() <= SHORT_CMD {
        owned(cmd)
    } else {
        cat(first_bytes(cmd, SHORT_CMD).as_str(), "\u{2026}")
    }
}

/// The orphans that are not among the processes to end, with those before them added.
pub open spec fn reaped(targets: Seq<u32>, o: Seq<(u32, Seq<char>)>) -> Seq<(u32, Seq<char>)>
    decreases o.len(),
{
    if o.len() == 0 {
        Seq::empty()
    } else {
        let rest = reaped(targets, o.drop_last());
        if with_reaped(targets, o.drop_last()).contains(o.last().0) {
            rest
        } else {
            rest.push(o.last())
        }
    }
}

/// The processes to end, with the orphans that are not among them.
pub open spec fn with_reaped(targets: Seq<u32>, o: Seq<(u32, Seq<char>)>) -> Seq<u32>
    decreases o.len(),
{
    if o.len() == 0 {
        targets
    } else {
        let t = with_reaped(targets, o.drop_last());
        if t.contains(o.last().0) {
            t
        } else {
            t.push(o.last().0)
        }
    }
}

/// Numbers other than the given one.
pub open spec fn others(v: Seq<u32>, x: u32) -> Seq<u32>
    decreases v.len(),
{
    if v.len() == 0 {
        Seq::empty()
    } else if v.last() == x {
        others(v.drop_last(), x)
    } else {
        others(v.drop_last(), x).push(v.last())
    }
}

/// What is to be swept: the processes to end, and the orphans among them.
#[derive(Debug)]
pub struct Sweep {
    pub targets: Vec<u32>,
    pub reaped: Vec<(u32, String)>,
}

/// Processes and what descends from them, in the order in which they are swept: those
/// farthest down first, and the processes themselves last.
pub open spec fn swept_order(table: Seq<(u32, u32, Seq<char>)>, roots: Seq<u32>) -> Seq<u32> {
    descendants(table, roots).reverse() + roots
}

/// Each process that descends from others is swept before a parent of it.
pub proof fn swept_before_parent(table: Seq<(u32, u32, Seq<char>)>, roots: Seq<u32>, i: int)
    requires
        0 <= i < descendants(table, roots).len(),
    ensures
        exists|p: u32| #[trigger]
            is_child(table, swept_order(table, roots)[i], p) && swept_order(table, roots).skip(
                i + 1,
            ).contains(p),
{
    let below = descendants(table, roots);
    let all = swept_order(table, roots);
    let k = below.len() - 1 - i;
    assert(all[i] == below[k]);
    descendants_behind_parents(table, roots, k);
    let p = choose|p: u32| #[trigger]
        is_child(table, below[k], p) && (roots.contains(p) || below.take(k).contains(p));
    if roots.contains(p) {
        let j = choose|j: int| 0 <= j < roots.len() && roots[j] == p;
        assert(all.skip(i + 1)[below.len() + j - (i + 1)] == p);
    } else {
        let j = choose|j: int| 0 <= j < below.take(k).len() && below.take(k)[j] == p;
        assert(all[below.len() - 1 - j] == p);
        assert(all.skip(i + 1)[below.len() - 1 - j - (i + 1)] == p);
    }
    assert(is_child(table, all[i], p));
}

/// What is to be swept: what runs this program and what it started, children before
/// parents, and what it started that lost its parent; but for the given process.
pub fn plan_sweep(table: &Vec<(u32, u32, String)>, self_pid: u32) -> (r: Sweep)
    ensures
        ({
            let t = table_view(table@);
            let roots = root_pids(t, self_pid);
            let owned_pids = swept_order(t, roots);
            &&& r.targets@ == others(with_reaped(owned_pids, orphans(t)), self_pid)
            &&& named_pids(r.reaped@) == reaped(owned_pids, orphans(t))
        }),
{
    let roots = starling_root_pids(table, self_pid);
    let found_below = descendants_of(&roots, table);
    let ghost below = found_below@.reverse();
    let mut targets: Vec<u32> = Vec::new();
    let mut n: usize = found_below.len();
    assert(targets@ =~= below.take(0));
    while n > 0
        invariant
            n <= found_below@.len(),
            below == found_below@.reverse(),
            targets@ == below.take(found_below@.len() - n),
        decreases n,
    {
        n -= 1;
        targets.push(found_below[n]);
        assert(targets@ =~= below.take(found_below@.len() - n));
    }
    assert(below.take(found_below@.len() as int) =~= below);
    let mut k: usize = 0;
    assert(below + roots@.take(0) =~= below);
    while k < roots.len()
        invariant
            k <= roots@.len(),
            targets@ == below + roots@.take(k as int),
        decreases roots@.len() - k,
    {
        targets.push(roots[k]);
        assert(below + roots@.take(k + 1) =~= (below + roots@.take(k as int)).push(
            roots@[k as int],
        ));
        k += 1;
    }
    assert(roots@.take(k as int) =~= roots@);
    let ghost owned_pids = targets@;
    let found = orphaned_starling_kubectl(table);
    let ghost all = named_pids(found@);
    let mut kept: Vec<(u32, String)> = Vec::new();
    let mut i: usize = 0;
    assert(named_pids(kept@) =~= reaped(owned_pids, all.take(0)));
    assert(targets@ == with_reaped(owned_pids, all.take(0)));
    while i < found.len()
        invariant
            i <= found@.len(),
            all == named_pids(found@),
            targets@ == with_reaped(owned_pids, all.take(i as int)),
            named_pids(kept@) == reaped(owned_pids, all.take(i as int)),
        decreases found@.len() - i,
    {
        proof {
            assert(all.take(i + 1).drop_last() =~= all.take(i as int));
            assert(all.take(i + 1).last() == all[i as int]);
        }
        let pid: u32 = found[i].0;
        if !holds(&targets, pid) {
            let ghost before = named_pids(kept@);
            targets.push(pid);
            kept.push((pid, found[i].1.clone()));
            assert(named_pids(kept@) =~= before.push((pid, found@[i as int].1@)));
        }
        i += 1;
    }
    assert(all.take(i as int) =~= all);
    let ghost swept = targets@;
    let mut out: Vec<u32> = Vec::new();
    let mut j: usize = 0;
    assert(out@ =~= others(swept.take(0), self_pid));
    while j < targets.len()
        invariant
            j <= targets@.len(),
            swept == targets@,
            out@ == others(swept.take(j as int), self_pid),
        decreases targets@.len() - j,
    {
        assert(swept.take(j + 1).drop_last() =~= swept.take(j as int));
        assert(swept.take(j + 1).last() == swept[j as int]);
        if targets[j] != self_pid {
            out.push(targets[j]);
        }
        j += 1;
    }
    assert(swept.take(j as int) =~= swept);
    Sweep { targets: out, reaped: kept }
}

proof fn others_without(v: Seq<u32>, x: u32)
    ensures
        !others(v, x).contains(x),
    decreases v.len(),
{
    if v.len() > 0 {
        others_without(v.drop_last(), x);
        let r = others(v, x);
        let q = others(v.drop_last(), x);
        if r.contains(x) && v.last() != x {
            let i = choose|i: int| 0 <= i < r.len() && r[i] == x;
            if i < q.len() {
                assert(q[i] == x);
            }
        }
    }
}

/// The process that sweeps is never swept.
pub proof fn sweep_spares_self(v: Seq<u32>, self_pid: u32)
    ensures
        !others(v, self_pid).contains(self_pid),
{
    others_without(v, self_pid);
}

} // verus!
