//! Bringing the objects of a kind to a desired set.

use vstd::prelude::*;
use vstd::string::*;

use crate::api::store::{
    find_object_index, key_of, listed_in_order, objects_view, of_kind, stamped, upsert,
    without_object, ApiObjectStore, ObjectV, StoreV,
};
use crate::daemon::state::among;
use crate::json::{Json, JsonV};
use crate::text::{texts, texts_push};

verus! {

/// The contents of a list of named objects.
pub open spec fn desired_view(v: Seq<(String, Json)>) -> Seq<(Seq<char>, JsonV)> {
    v.map_values(|e: (String, Json)| (e.0@, e.1@))
}

/// Pushing a named object pushes its contents.
pub broadcast proof fn desired_push(v: Seq<(String, Json)>, e: (String, Json))
    ensures
        #[trigger] desired_view(v.push(e)) == desired_view(v).push((e.0@, e.1@)),
{
    assert(desired_view(v.push(e)) =~= desired_view(v).push((e.0@, e.1@)));
}

/// The names of desired objects.
pub open spec fn names_of(desired: Seq<(Seq<char>, JsonV)>) -> Seq<Seq<char>> {
    desired.map_values(|e: (Seq<char>, JsonV)| e.0)
}

/// The store without those of the listed objects of a kind whose names are not
/// wanted.
pub open spec fn swept(
    s: StoreV,
    kind: Seq<char>,
    listed: Seq<ObjectV>,
    names: Seq<Seq<char>>,
) -> StoreV
    decreases listed.len(),
{
    if listed.len() == 0 {
        s
    } else {
        let t = swept(s, kind, listed.drop_last(), names);
        if names.contains(listed.last().name) {
            t
        } else {
            t.deleted(kind, listed.last().namespace, listed.last().name)
        }
    }
}

/// The store after all desired objects were applied, in order.
pub open spec fn all_applied(
    s: StoreV,
    kind: Seq<char>,
    desired: Seq<(Seq<char>, JsonV)>,
) -> StoreV
    decreases desired.len(),
{
    if desired.len() == 0 {
        s
    } else {
        all_applied(s, kind, desired.drop_last()).applied(
            kind,
            "default"@,
            desired.last().0,
            desired.last().1,
        )
    }
}

/// The store with the objects of a kind brought to the desired set.
pub open spec fn reconciled(
    s: StoreV,
    kind: Seq<char>,
    desired: Seq<(Seq<char>, JsonV)>,
) -> StoreV {
    all_applied(
        swept(s, kind, of_kind(s.objects, kind), names_of(desired)),
        kind,
        desired,
    )
}

/// An upsert adds at most one object.
pub proof fn upsert_len(objects: Seq<ObjectV>, o: ObjectV)
    ensures
        objects.len() <= upsert(objects, o).len() <= objects.len() + 1,
    decreases objects.len(),
{
    if objects.len() > 0 && key_of(objects[0]) != key_of(o) {
        upsert_len(objects.drop_first(), o);
    }
}

/// Leaving an object out leaves no more objects.
pub proof fn without_len(objects: Seq<ObjectV>, k: (Seq<char>, Seq<char>, Seq<char>))
    ensures
        without_object(objects, k).len() <= objects.len(),
    decreases objects.len(),
{
    if objects.len() > 0 && key_of(objects[0]) != k {
        without_len(objects.drop_first(), k);
    }
}

/// How far a sweep moves the store.
pub proof fn swept_bounds(
    s: StoreV,
    kind: Seq<char>,
    listed: Seq<ObjectV>,
    names: Seq<Seq<char>>,
)
    requires
        s.ok(),
    ensures
        swept(s, kind, listed, names).ok(),
        swept(s, kind, listed, names).objects.len() <= s.objects.len(),
        swept(s, kind, listed, names).resource_version <= s.resource_version + listed.len(),
        swept(s, kind, listed, names).next_uid == s.next_uid,
    decreases listed.len(),
{
    if listed.len() > 0 {
        let d = listed.drop_last();
        swept_bounds(s, kind, d, names);
        let t = swept(s, kind, d, names);
        t.deleted_ok(kind, listed.last().namespace, listed.last().name);
        without_len(t.objects, (kind, listed.last().namespace, listed.last().name));
    }
}

/// How far applying objects moves the store.
pub proof fn all_applied_bounds(s: StoreV, kind: Seq<char>, desired: Seq<(Seq<char>, JsonV)>)
    requires
        s.ok(),
    ensures
        all_applied(s, kind, desired).ok(),
        all_applied(s, kind, desired).objects.len() <= s.objects.len() + desired.len(),
        all_applied(s, kind, desired).resource_version == s.resource_version + desired.len(),
        all_applied(s, kind, desired).next_uid <= s.next_uid + desired.len(),
    decreases desired.len(),
{
    if desired.len() > 0 {
        let d = desired.drop_last();
        all_applied_bounds(s, kind, d);
        applied_bounds(
            all_applied(s, kind, d),
            kind,
            "default"@,
            desired.last().0,
            desired.last().1,
        );
    }
}

/// How far applying one object moves the store.
pub proof fn applied_bounds(
    s: StoreV,
    kind: Seq<char>,
    namespace: Seq<char>,
    name: Seq<char>,
    object: JsonV,
)
    requires
        s.ok(),
    ensures
        s.applied(kind, namespace, name, object).ok(),
        s.applied(kind, namespace, name, object).objects.len() <= s.objects.len() + 1,
        s.applied(kind, namespace, name, object).resource_version == s.resource_version + 1,
        s.applied(kind, namespace, name, object).next_uid <= s.next_uid + 1,
{
    let t = s.applied(kind, namespace, name, object);
    match s.find(kind, namespace, name) {
        Some(o) => {
            s.replaced_ok(kind, namespace, name, object);
            upsert_len(
                s.objects,
                stamped(kind, namespace, name, o.uid, s.resource_version + 1, object),
            );
        },
        None => {
            s.created_ok(kind, namespace, name, object);
            upsert_len(
                s.objects,
                stamped(
                    kind,
                    namespace,
                    name,
                    crate::api::store::nth_uid(s.next_uid + 1),
                    s.resource_version + 1,
                    object,
                ),
            );
        },
    }
}

/// The objects of a kind are no more than all.
pub proof fn of_kind_len(objects: Seq<ObjectV>, kind: Seq<char>)
    ensures
        of_kind(objects, kind).len() <= objects.len(),
    decreases objects.len(),
{
    reveal(Seq::filter);
    if objects.len() > 0 {
        of_kind_len(objects.drop_last(), kind);
    }
}

/// How far bringing a kind to the desired set moves the store.
pub proof fn reconciled_bounds(s: StoreV, kind: Seq<char>, desired: Seq<(Seq<char>, JsonV)>)
    requires
        s.ok(),
    ensures
        reconciled(s, kind, desired).ok(),
        reconciled(s, kind, desired).objects.len() <= s.objects.len() + desired.len(),
        reconciled(s, kind, desired).resource_version <= s.resource_version + s.objects.len()
            + desired.len(),
        reconciled(s, kind, desired).next_uid <= s.next_uid + desired.len(),
{
    let listed = of_kind(s.objects, kind);
    of_kind_len(s.objects, kind);
    swept_bounds(s, kind, listed, names_of(desired));
    all_applied_bounds(swept(s, kind, listed, names_of(desired)), kind, desired);
}

/// Brings the objects of a kind to the desired set: those with other names are
/// deleted, the desired ones are created or replaced.
pub fn reconcile_kind(api: &mut ApiObjectStore, kind: &str, desired: Vec<(String, Json)>)
    requires
        old(api)@.ok(),
        old(api)@.room(old(api)@.objects.len() + desired@.len()),
    ensures
        final(api)@ == reconciled(old(api)@, kind@, desired_view(desired@)),
        final(api)@.ok(),
{
    broadcast use texts_push;

    let ghost s = api@;
    let ghost all = desired_view(desired@);
    let mut names: Vec<String> = Vec::new();
    let mut i: usize = 0;
    assert(texts(names@) =~= names_of(all).take(0));
    while i < desired.len()
        invariant
            i <= desired@.len(),
            all == desired_view(desired@),
            texts(names@) == names_of(all).take(i as int),
        decreases desired@.len() - i,
    {
        names.push(desired[i].0.clone());
        assert(names_of(all).take(i + 1) =~= names_of(all).take(i as int).push(
            desired@[i as int].0@,
        ));
        i += 1;
    }
    assert(names_of(all).take(i as int) =~= names_of(all));
    let listed = api.list(kind);
    let ghost lv = objects_view(listed@);
    proof {
        of_kind_len(s.objects, kind@);
        assert(lv.take(0) =~= Seq::empty());
    }
    let mut k: usize = 0;
    while k < listed.len()
        invariant
            k <= listed@.len(),
            lv == objects_view(listed@),
            lv.len() <= s.objects.len(),
            s.ok(),
            s.room(s.objects.len() + all.len()),
            texts(names@) == names_of(all),
            api@ == swept(s, kind@, lv.take(k as int), names_of(all)),
            api@.ok(),
        decreases listed@.len() - k,
    {
        proof {
            swept_bounds(s, kind@, lv.take(k as int), names_of(all));
            assert(lv.take(k + 1).drop_last() =~= lv.take(k as int));
            assert(lv.take(k + 1).last() == listed@[k as int]@);
        }
        if !among(listed[k].name.as_str(), &names) {
            api.delete(kind, listed[k].namespace.as_str(), listed[k].name.as_str());
        }
        k += 1;
    }
    proof {
        assert(lv.take(k as int) =~= lv);
        swept_bounds(s, kind@, lv, names_of(all));
        assert(all.take(0) =~= Seq::empty());
        assert(all.skip(0) =~= all);
    }
    let ghost mid = api@;
    let mut rest = desired;
    let ghost mut done: int = 0;
    while rest.len() > 0
        invariant
            0 <= done <= all.len(),
            desired_view(rest@) == all.skip(done),
            mid.ok(),
            mid.room(all.len()),
            api@ == all_applied(mid, kind@, all.take(done)),
            api@.ok(),
        decreases rest@.len(),
    {
        let ghost rest0 = rest@;
        let (name, object) = rest.remove(0);
        proof {
            assert(desired_view(rest0).len() == all.len() - done);
            assert(desired_view(rest0)[0] == all.skip(done)[0]);
            assert(all[done] == (name@, object@));
            assert(desired_view(rest@) =~= desired_view(rest0).remove(0));
            assert(desired_view(rest@) =~= all.skip(done + 1));
            assert(all.take(done + 1).drop_last() =~= all.take(done));
            assert(all.take(done + 1).last() == all[done]);
            all_applied_bounds(mid, kind@, all.take(done));
        }
        api.apply(kind, "default", name.as_str(), object);
        proof {
            done = done + 1;
        }
    }
    assert(all.take(done) =~= all);
}

/// What is found after a sweep: what was found before, but for objects of the kind
/// that were listed and whose names are not wanted.
proof fn swept_finds(
    s: StoreV,
    kind: Seq<char>,
    listed: Seq<ObjectV>,
    names: Seq<Seq<char>>,
    k: Seq<char>,
    ns: Seq<char>,
    n: Seq<char>,
)
    requires
        s.ok(),
    ensures
        ({
            let gone = k == kind && !names.contains(n) && exists|i: int|
                0 <= i < listed.len() && (#[trigger] listed[i]).namespace == ns && listed[i].name
                    == n;
            swept(s, kind, listed, names).find(k, ns, n) == if gone {
                None
            } else {
                s.find(k, ns, n)
            }
        }),
    decreases listed.len(),
{
    if listed.len() > 0 {
        let d = listed.drop_last();
        let o = listed.last();
        swept_finds(s, kind, d, names, k, ns, n);
        swept_bounds(s, kind, d, names);
        let t = swept(s, kind, d, names);
        assert(forall|i: int| 0 <= i < d.len() ==> d[i] == listed[i]);
        if !names.contains(o.name) {
            t.delete_then_get(kind, o.namespace, o.name, k, ns, n);
        }
        if (exists|i: int| 0 <= i < d.len() && (#[trigger] d[i]).namespace == ns && d[i].name == n) {
            let i = choose|i: int|
                0 <= i < d.len() && (#[trigger] d[i]).namespace == ns && d[i].name == n;
            assert(listed[i].namespace == ns && listed[i].name == n);
        }
        if o.namespace == ns && o.name == n {
            assert(listed[listed.len() - 1].namespace == ns);
        }
    }
}

/// What is found after objects were applied: under the name of one of them, an
/// object; under any other key, what was found before.
proof fn all_applied_finds(
    s: StoreV,
    kind: Seq<char>,
    desired: Seq<(Seq<char>, JsonV)>,
    k: Seq<char>,
    ns: Seq<char>,
    n: Seq<char>,
)
    requires
        s.ok(),
    ensures
        ({
            let t = all_applied(s, kind, desired);
            if k == kind && ns == "default"@ && names_of(desired).contains(n) {
                t.find(k, ns, n) is Some
            } else {
                t.find(k, ns, n) == s.find(k, ns, n)
            }
        }),
    decreases desired.len(),
{
    if desired.len() > 0 {
        let d = desired.drop_last();
        all_applied_finds(s, kind, d, k, ns, n);
        all_applied_bounds(s, kind, d);
        all_applied(s, kind, d).applied_finds(
            kind,
            "default"@,
            desired.last().0,
            desired.last().1,
        );
        let names = names_of(desired);
        let dn = names_of(d);
        assert(forall|i: int| 0 <= i < dn.len() ==> dn[i] == names[i]);
        if dn.contains(n) {
            let i = choose|i: int| 0 <= i < dn.len() && dn[i] == n;
            assert(names[i] == n);
        }
        if names.contains(n) && !dn.contains(n) {
            let i = choose|i: int| 0 <= i < names.len() && names[i] == n;
            assert(i == names.len() - 1) by {
                if i < dn.len() {
                    assert(dn[i] == n);
                }
            }
        }
        if desired.last().0 == n {
            assert(names[names.len() - 1] == n);
        }
        if (k, ns, n) != (kind, "default"@, desired.last().0) {
            assert(all_applied(s, kind, desired).find(k, ns, n) == all_applied(s, kind, d).find(
                k,
                ns,
                n,
            ));
        }
    }
}

/// A kind that was brought to the desired set has an object under each desired
/// name and none under any other, and the objects of other kinds are untouched.
pub proof fn reconcile_exact(
    s: StoreV,
    kind: Seq<char>,
    desired: Seq<(Seq<char>, JsonV)>,
    k: Seq<char>,
    ns: Seq<char>,
    n: Seq<char>,
)
    requires
        s.ok(),
    ensures
        ({
            let t = reconciled(s, kind, desired);
            if k != kind {
                t.find(k, ns, n) == s.find(k, ns, n)
            } else if names_of(desired).contains(n) {
                t.find(k, ns, n) is Some <==> ns == "default"@ || s.find(k, ns, n) is Some
            } else {
                t.find(k, ns, n) is None
            }
        }),
{
    let listed = of_kind(s.objects, kind);
    let names = names_of(desired);
    swept_finds(s, kind, listed, names, k, ns, n);
    swept_bounds(s, kind, listed, names);
    let mid = swept(s, kind, listed, names);
    all_applied_finds(mid, kind, desired, k, ns, n);
    if k == kind && !names.contains(n) && s.find(k, ns, n) is Some {
        find_object_index(s.objects, (k, ns, n));
        listed_in_order(s.objects, kind);
        let o = s.find(k, ns, n)->0;
        let i = choose|i: int|
            0 <= i < s.objects.len() && #[trigger] s.objects[i] == o && key_of(o) == (k, ns, n);
        assert(s.objects[i].kind == kind);
        assert(listed.contains(s.objects[i]));
        let j = choose|j: int| 0 <= j < listed.len() && listed[j] == o;
        assert(listed[j].namespace == ns && listed[j].name == n);
    }
}

} // verus!
