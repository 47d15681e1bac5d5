//! JSON merge patches (RFC 7386).

use vstd::prelude::*;

use crate::json::{
    below, drop_entry, empty_table, entries_view, entries_view_items, get, lookup, lookup_before,
    lookup_put, lookup_without, put, put_entry, put_sorted, sorted, sorted_tail, without, Json,
    JsonV,
};
use crate::text::{same, text_lt, text_lt_asymmetric, text_lt_total, text_lt_transitive};

verus! {

/// The entries of a table; none where the value is no table.
pub open spec fn entries(v: JsonV) -> Seq<(Seq<char>, JsonV)> {
    match v {
        JsonV::Table(e) => e,
        _ => Seq::empty(),
    }
}

/// The entry's value, null where there is none.
pub open spec fn lookup_or_null(e: Seq<(Seq<char>, JsonV)>, k: Seq<char>) -> JsonV {
    match lookup(e, k) {
        Some(v) => v,
        None => JsonV::Null,
    }
}

/// What a merge patch makes of a value: a patch that is a table is merged into
/// the entries of the target member by member, any other patch takes the
/// target's place.
pub open spec fn merge(target: JsonV, patch: JsonV) -> JsonV
    decreases patch,
{
    match patch {
        JsonV::Table(p) => JsonV::Table(merge_members(entries(target), p)),
        _ => patch,
    }
}

/// The members of a patch merged one after the other: a null deletes the key.
pub open spec fn merge_members(
    e: Seq<(Seq<char>, JsonV)>,
    p: Seq<(Seq<char>, JsonV)>,
) -> Seq<(Seq<char>, JsonV)>
    decreases p,
{
    if p.len() == 0 {
        e
    } else {
        let before = merge_members(e, p.drop_last());
        let (k, v) = p.last();
        if v is Null {
            without(before, k)
        } else {
            put(before, k, merge(lookup_or_null(before, k), v))
        }
    }
}

/// Applies a merge patch.
pub fn merge_patch(target: Json, patch: &Json) -> (r: Json)
    ensures
        r@ == merge(target@, patch@),
    decreases patch,
{
    match patch {
        Json::Table(p) => {
            let mut e: Vec<(String, Json)> = match target {
                Json::Table(e) => e,
                _ => Vec::new(),
            };
            merge_into(&mut e, p);
            Json::Table(e)
        },
        other => other.clone(),
    }
}

/// Merges the members of a patch into the entries of a table.
pub fn merge_into(e: &mut Vec<(String, Json)>, p: &Vec<(String, Json)>)
    ensures
        entries_view(final(e)@) == merge_members(entries_view(old(e)@), entries_view(p@)),
    decreases p,
{
    let ghost e0 = entries_view(e@);
    let ghost all = entries_view(p@);
    let mut i: usize = 0;
    proof {
        entries_view_items(p@);
    }
    assert(all.take(0) =~= Seq::empty());
    while i < p.len()
        invariant
            i <= p@.len(),
            all == entries_view(p@),
            all.len() == p@.len(),
            forall|j: int| 0 <= j < p@.len() ==> (#[trigger] all[j]) == (p@[j].0@, p@[j].1@),
            entries_view(e@) == merge_members(e0, all.take(i as int)),
        decreases p@.len() - i,
    {
        assert(decreases_to!(*p => p@[i as int]));
        let key = p[i].0.as_str();
        proof {
            assert(all.take(i + 1).drop_last() =~= all.take(i as int));
            assert(all.take(i + 1).last() == all[i as int]);
        }
        match &p[i].1 {
            Json::Null => {
                drop_entry(e, key);
            },
            value => {
                let current: Json = entry_or_null(e, key);
                let merged: Json = merge_patch(current, value);
                put_entry(e, key, merged);
            },
        }
        i += 1;
    }
    assert(all.take(i as int) =~= all);
}

/// A copy of the entry's value, null where there is none.
pub fn entry_or_null(e: &Vec<(String, Json)>, k: &str) -> (r: Json)
    ensures
        r@ == lookup_or_null(entries_view(e@), k@),
{
    let ghost all = entries_view(e@);
    let mut i: usize = 0;
    proof {
        entries_view_items(e@);
    }
    assert(all.skip(0) =~= all);
    while i < e.len()
        invariant
            i <= e@.len(),
            all == entries_view(e@),
            all.len() == e@.len(),
            forall|j: int| 0 <= j < e@.len() ==> (#[trigger] all[j]) == (e@[j].0@, e@[j].1@),
            lookup(all, k@) == lookup(all.skip(i as int), k@),
        decreases e@.len() - i,
    {
        assert(all.skip(i as int)[0] == all[i as int]);
        if same(e[i].0.as_str(), k) {
            return e[i].1.clone();
        }
        assert(all.skip(i as int).drop_first() =~= all.skip(i + 1));
        i += 1;
    }
    Json::Null
}

/// Whether the keys of every table inside the value are in order, each once.
pub open spec fn ordered(v: JsonV) -> bool
    decreases v,
{
    match v {
        JsonV::Table(e) => sorted(e) && ordered_entries(e),
        JsonV::List(s) => ordered_items(s),
        _ => true,
    }
}

pub open spec fn ordered_entries(e: Seq<(Seq<char>, JsonV)>) -> bool
    decreases e,
{
    e.len() == 0 || (ordered_entries(e.drop_last()) && ordered(e.last().1))
}

pub open spec fn ordered_items(s: Seq<JsonV>) -> bool
    decreases s,
{
    s.len() == 0 || (ordered_items(s.drop_last()) && ordered(s.last()))
}

/// Of entries in order, the last one is found by its key alone.
pub proof fn lookup_last(p: Seq<(Seq<char>, JsonV)>, k: Seq<char>)
    requires
        sorted(p),
        p.len() > 0,
    ensures
        sorted(p.drop_last()),
        lookup(p.drop_last(), p.last().0) is None,
        lookup(p, k) == if k == p.last().0 {
            Some(p.last().1)
        } else {
            lookup(p.drop_last(), k)
        },
    decreases p.len(),
{
    let d = p.drop_last();
    assert forall|i: int, j: int| 0 <= i < j < d.len() implies text_lt(
        #[trigger] d[i].0,
        #[trigger] d[j].0,
    ) by {
        assert(d[i] == p[i] && d[j] == p[j]);
    }
    if p.len() == 1 {
        assert(p.drop_first() =~= Seq::empty());
        assert(d =~= Seq::empty());
    } else {
        sorted_tail(p);
        lookup_last(p.drop_first(), k);
        lookup_last(p.drop_first(), p.last().0);
        assert(p.drop_first().last() == p.last());
        assert(d.drop_first() =~= p.drop_first().drop_last());
        assert(text_lt(p[0].0, p.last().0));
        text_lt_asymmetric(p[0].0, p.last().0);
        assert(d[0] == p[0]);
    }
}

/// What a merge leaves at a key: what the patch says nothing of is kept, what it
/// gives as null is gone, and any other member is merged into what stood there.
/// The keys stay in order.
pub proof fn merge_lookup(e: Seq<(Seq<char>, JsonV)>, p: Seq<(Seq<char>, JsonV)>, k: Seq<char>)
    requires
        sorted(e),
        sorted(p),
    ensures
        sorted(merge_members(e, p)),
        lookup(merge_members(e, p), k) == match lookup(p, k) {
            None => lookup(e, k),
            Some(v) => if v is Null {
                None
            } else {
                Some(merge(lookup_or_null(e, k), v))
            },
        },
    decreases p.len(),
{
    if p.len() > 0 {
        let before = merge_members(e, p.drop_last());
        let (q, v) = p.last();
        lookup_last(p, k);
        merge_lookup(e, p.drop_last(), k);
        if v is Null {
            lookup_without(before, q, k);
        } else {
            merge_lookup(e, p.drop_last(), q);
            lookup_last(p, q);
            let m = merge(lookup_or_null(before, q), v);
            lookup_put(before, q, m, k);
            put_sorted(before, q, m);
        }
    }
}

/// Two tables in order with the same values at all keys are the same.
pub proof fn sorted_extensional(a: Seq<(Seq<char>, JsonV)>, b: Seq<(Seq<char>, JsonV)>)
    requires
        sorted(a),
        sorted(b),
        forall|k: Seq<char>| lookup(a, k) == #[trigger] lookup(b, k),
    ensures
        a == b,
    decreases a.len(),
{
    if a.len() == 0 {
        if b.len() > 0 {
            assert(lookup(b, b[0].0) == Some(b[0].1));
        }
        assert(a =~= b);
    } else if b.len() == 0 {
        assert(lookup(b, a[0].0) is None);
        assert(lookup(a, a[0].0) == Some(a[0].1));
    } else {
        sorted_tail(a);
        sorted_tail(b);
        assert(lookup(b, a[0].0) == Some(a[0].1));
        assert(lookup(b, b[0].0) == Some(b[0].1));
        if a[0].0 != b[0].0 {
            text_lt_total(a[0].0, b[0].0);
            if text_lt(a[0].0, b[0].0) {
                below_step(a[0].0, b);
                lookup_before(b, a[0].0);
            } else {
                below_step(b[0].0, a);
                lookup_before(a, b[0].0);
            }
            assert(false);
        }
        let ta = a.drop_first();
        let tb = b.drop_first();
        assert forall|k: Seq<char>| lookup(ta, k) == #[trigger] lookup(tb, k) by {
            if k == a[0].0 {
                lookup_before(ta, k);
                lookup_before(tb, k);
            } else {
                assert(lookup(a, k) == lookup(b, k));
            }
        }
        sorted_extensional(ta, tb);
        assert(a =~= seq![a[0]] + ta);
        assert(b =~= seq![b[0]] + tb);
    }
}

/// A key before the first one comes before all of them.
proof fn below_step(k: Seq<char>, e: Seq<(Seq<char>, JsonV)>)
    requires
        sorted(e),
        e.len() > 0,
        text_lt(k, e[0].0),
    ensures
        below(k, e),
{
    assert forall|j: int| 0 <= j < e.len() implies text_lt(k, #[trigger] e[j].0) by {
        if j > 0 {
            text_lt_transitive(k, e[0].0, e[j].0);
        }
    }
}

/// The values at the keys of an ordered table are ordered.
pub proof fn ordered_lookup(e: Seq<(Seq<char>, JsonV)>, k: Seq<char>)
    requires
        ordered_entries(e),
    ensures
        ordered(lookup_or_null(e, k)),
    decreases e.len(),
{
    ordered_each(e);
    lookup_among(e, k);
}

/// The values of ordered entries, one by one.
pub proof fn ordered_each(e: Seq<(Seq<char>, JsonV)>)
    ensures
        ordered_entries(e) <==> forall|i: int| 0 <= i < e.len() ==> ordered(#[trigger] e[i].1),
    decreases e.len(),
{
    if e.len() > 0 {
        let d = e.drop_last();
        ordered_each(d);
        if ordered_entries(e) {
            assert forall|i: int| 0 <= i < e.len() implies ordered(#[trigger] e[i].1) by {
                if i < d.len() {
                    assert(e[i] == d[i]);
                }
            }
        }
        if forall|i: int| 0 <= i < e.len() ==> ordered(#[trigger] e[i].1) {
            assert forall|i: int| 0 <= i < d.len() implies ordered(#[trigger] d[i].1) by {
                assert(e[i] == d[i]);
            }
            assert(ordered(e[e.len() - 1].1));
        }
    }
}

/// What is found is the value of an entry.
pub proof fn lookup_among(e: Seq<(Seq<char>, JsonV)>, k: Seq<char>)
    ensures
        lookup(e, k) is Some ==> exists|i: int|
            0 <= i < e.len() && e[i].0 == k && Some(#[trigger] e[i].1) == lookup(e, k),
    decreases e.len(),
{
    if e.len() > 0 {
        if e[0].0 == k {
            assert(Some(e[0].1) == lookup(e, k));
        } else {
            let t = e.drop_first();
            lookup_among(t, k);
            if lookup(t, k) is Some {
                let i = choose|i: int|
                    0 <= i < t.len() && t[i].0 == k && Some(#[trigger] t[i].1) == lookup(t, k);
                assert(e[i + 1] == t[i]);
                assert(Some(e[i + 1].1) == lookup(e, k));
            }
        }
    }
}

/// Each entry of a table in order is found by its key.
pub proof fn lookup_at(e: Seq<(Seq<char>, JsonV)>, i: int)
    requires
        sorted(e),
        0 <= i < e.len(),
    ensures
        lookup(e, e[i].0) == Some(e[i].1),
    decreases e.len(),
{
    if i > 0 {
        sorted_tail(e);
        assert(e.drop_first()[i - 1] == e[i]);
        lookup_at(e.drop_first(), i - 1);
        text_lt_asymmetric(e[0].0, e[i].0);
    }
}

/// Merging an ordered patch into an ordered value gives an ordered value.
pub proof fn merge_ordered(t: JsonV, p: JsonV)
    requires
        ordered(t),
        ordered(p),
    ensures
        ordered(merge(t, p)),
    decreases p,
{
    if let JsonV::Table(pe) = p {
        let te = entries(t);
        let m = merge_members(te, pe);
        merge_lookup(te, pe, Seq::empty());
        assert forall|i: int| 0 <= i < m.len() implies ordered(#[trigger] m[i].1) by {
            let k = m[i].0;
            merge_lookup(te, pe, k);
            lookup_at(m, i);
            ordered_lookup(te, k);
            lookup_among(pe, k);
            if lookup(pe, k) is Some {
                let j = choose|j: int|
                    0 <= j < pe.len() && pe[j].0 == k && Some(#[trigger] pe[j].1) == lookup(pe, k);
                ordered_each(pe);
                assert(ordered(pe[j].1));
                merge_ordered(lookup_or_null(te, k), pe[j].1);
            }
        }
        ordered_each(m);
    }
}

/// Applying a patch a second time changes nothing.
pub proof fn merge_idempotent(t: JsonV, p: JsonV)
    requires
        ordered(t),
        ordered(p),
    ensures
        merge(merge(t, p), p) == merge(t, p),
    decreases p,
{
    if let JsonV::Table(pe) = p {
        let te = entries(t);
        let once = merge_members(te, pe);
        merge_lookup(te, pe, Seq::empty());
        let twice = merge_members(once, pe);
        merge_lookup(once, pe, Seq::empty());
        assert forall|k: Seq<char>| lookup(twice, k) == #[trigger] lookup(once, k) by {
            merge_lookup(te, pe, k);
            merge_lookup(once, pe, k);
            lookup_among(pe, k);
            if lookup(pe, k) is Some {
                let j = choose|j: int|
                    0 <= j < pe.len() && pe[j].0 == k && Some(#[trigger] pe[j].1) == lookup(pe, k);
                ordered_each(pe);
                ordered_lookup(te, k);
                assert(ordered(pe[j].1));
                if !(pe[j].1 is Null) {
                    merge_idempotent(lookup_or_null(te, k), pe[j].1);
                }
            }
        }
        sorted_extensional(twice, once);
    }
}

/// The patch that is the table without entries leaves every table as it is.
pub proof fn merge_empty(t: JsonV)
    requires
        t is Table,
    ensures
        merge(t, empty_table()) == t,
{
}

/// A member that the patch does not mention stands unchanged.
pub proof fn merge_keeps(t: JsonV, p: JsonV, k: Seq<char>)
    requires
        t is Table,
        p is Table,
        ordered(t),
        ordered(p),
        get(p, k) is None,
    ensures
        get(merge(t, p), k) == get(t, k),
{
    merge_lookup(entries(t), entries(p), k);
}

/// A member that the patch gives as null is gone.
pub proof fn merge_deletes(t: JsonV, p: JsonV, k: Seq<char>)
    requires
        ordered(t),
        ordered(p),
        get(p, k) == Some(JsonV::Null),
    ensures
        get(merge(t, p), k) is None,
{
    merge_lookup(entries(t), entries(p), k);
}

} // verus!
