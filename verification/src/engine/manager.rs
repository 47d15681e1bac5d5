//! What runs beside the objects for as long as they are there: streams that follow the
//! logs of pods, and forwards to their ports.

use vstd::prelude::*;
use vstd::string::*;

use crate::daemon::state::among;
use crate::text::{owned, pairs, pairs_push, same, texts, texts_push};

verus! {

/// The texts among the others.
pub open spec fn kept_texts(v: Seq<Seq<char>>, live: Seq<Seq<char>>) -> Seq<Seq<char>>
    decreases v.len(),
{
    if v.len() == 0 {
        Seq::empty()
    } else if live.contains(v.last()) {
        kept_texts(v.drop_last(), live).push(v.last())
    } else {
        kept_texts(v.drop_last(), live)
    }
}

/// The texts that are not among the others.
pub open spec fn left_texts(v: Seq<Seq<char>>, live: Seq<Seq<char>>) -> Seq<Seq<char>>
    decreases v.len(),
{
    if v.len() == 0 {
        Seq::empty()
    } else if live.contains(v.last()) {
        left_texts(v.drop_last(), live)
    } else {
        left_texts(v.drop_last(), live).push(v.last())
    }
}

/// The pods of pods and the spans of their logs.
pub open spec fn pods_of(v: Seq<(Seq<char>, Seq<char>)>) -> Seq<Seq<char>> {
    v.map_values(|p: (Seq<char>, Seq<char>)| p.0)
}

/// The pods whose logs are followed once some more are found.
pub open spec fn following(followed: Seq<Seq<char>>, found: Seq<(Seq<char>, Seq<char>)>) -> Seq<
    Seq<char>,
>
    decreases found.len(),
{
    if found.len() == 0 {
        followed
    } else {
        let f = following(followed, found.drop_last());
        if f.contains(found.last().0) {
            f
        } else {
            f.push(found.last().0)
        }
    }
}

/// The pods whose logs are followed from now on, and the spans that they go to.
pub open spec fn newly_followed(
    followed: Seq<Seq<char>>,
    found: Seq<(Seq<char>, Seq<char>)>,
) -> Seq<(Seq<char>, Seq<char>)>
    decreases found.len(),
{
    if found.len() == 0 {
        Seq::empty()
    } else {
        let rest = newly_followed(followed, found.drop_last());
        if following(followed, found.drop_last()).contains(found.last().0) {
            rest
        } else {
            rest.push(found.last())
        }
    }
}

/// The pods whose logs are followed.
#[derive(Debug)]
pub struct LogFollows {
    pods: Vec<String>,
}

impl View for LogFollows {
    type V = Seq<Seq<char>>;

    closed spec fn view(&self) -> Seq<Seq<char>> {
        texts(self.pods@)
    }
}

/// Which streams are to be started and stopped.
#[derive(Debug)]
pub struct FollowChange {
    /// Pods, and the spans that their logs go to.
    pub start: Vec<(String, String)>,
    pub stop: Vec<String>,
}

fn first_texts(v: &Vec<(String, String)>) -> (r: Vec<String>)
    ensures
        texts(r@) == pods_of(pairs(v@)),
{
    broadcast use texts_push;

    let ghost all = pods_of(pairs(v@));
    let mut r: Vec<String> = Vec::new();
    let mut i: usize = 0;
    assert(texts(r@) =~= all.take(0));
    while i < v.len()
        invariant
            i <= v@.len(),
            all == pods_of(pairs(v@)),
            texts(r@) == all.take(i as int),
        decreases v@.len() - i,
    {
        r.push(v[i].0.clone());
        assert(all[i as int] == v@[i as int].0@);
        assert(all.take(i + 1) =~= all.take(i as int).push(all[i as int]));
        i += 1;
    }
    assert(all.take(i as int) =~= all);
    r
}

impl LogFollows {
    /// No pods.
    pub fn new() -> (r: LogFollows)
        ensures
            r@ == Seq::<Seq<char>>::empty(),
    {
        let r = LogFollows { pods: Vec::new() };
        assert(r@ =~= Seq::empty());
        r
    }

    /// Takes the pods that were found, with the spans that their logs go to: those
    /// that are not followed yet are, and those that are gone no longer.
    pub fn observe(&mut self, found: &Vec<(String, String)>) -> (r: FollowChange)
        ensures
            pairs(r.start@) == newly_followed(old(self)@, pairs(found@)),
            texts(r.stop@) == left_texts(
                following(old(self)@, pairs(found@)),
                pods_of(pairs(found@)),
            ),
            final(self)@ == kept_texts(
                following(old(self)@, pairs(found@)),
                pods_of(pairs(found@)),
            ),
    {
        broadcast use {texts_push, pairs_push};

        let ghost before = self@;
        let ghost all = pairs(found@);
        let mut start: Vec<(String, String)> = Vec::new();
        let mut i: usize = 0;
        assert(pairs(start@) =~= newly_followed(before, all.take(0)));
        assert(all.take(0).len() == 0);
        while i < found.len()
            invariant
                i <= found@.len(),
                all == pairs(found@),
                texts(self.pods@) == following(before, all.take(i as int)),
                pairs(start@) == newly_followed(before, all.take(i as int)),
            decreases found@.len() - i,
        {
            proof {
                assert(all.take(i + 1).drop_last() =~= all.take(i as int));
                assert(all.take(i + 1).last() == (found@[i as int].0@, found@[i as int].1@));
            }
            let pod = found[i].0.as_str();
            if !among(pod, &self.pods) {
                self.pods.push(found[i].0.clone());
                start.push((found[i].0.clone(), found[i].1.clone()));
            }
            i += 1;
        }
        assert(all.take(i as int) =~= all);
        let live = first_texts(found);
        let ghost now = texts(self.pods@);
        let ghost l = texts(live@);
        let mut kept: Vec<String> = Vec::new();
        let mut stop: Vec<String> = Vec::new();
        let mut k: usize = 0;
        assert(texts(kept@) =~= kept_texts(now.take(0), l));
        assert(texts(stop@) =~= left_texts(now.take(0), l));
        while k < self.pods.len()
            invariant
                k <= self.pods@.len(),
                now == texts(self.pods@),
                l == texts(live@),
                texts(kept@) == kept_texts(now.take(k as int), l),
                texts(stop@) == left_texts(now.take(k as int), l),
            decreases self.pods@.len() - k,
        {
            proof {
                assert(now.take(k + 1).drop_last() =~= now.take(k as int));
                assert(now.take(k + 1).last() == self.pods@[k as int]@);
            }
            let pod = self.pods[k].clone();
            if among(pod.as_str(), &live) {
                kept.push(pod);
            } else {
                stop.push(pod);
            }
            k += 1;
        }
        assert(now.take(k as int) =~= now);
        self.pods = kept;
        FollowChange { start, stop }
    }
}

proof fn following_holds(
    followed: Seq<Seq<char>>,
    found: Seq<(Seq<char>, Seq<char>)>,
    x: Seq<char>,
)
    ensures
        following(followed, found).contains(x) <==> followed.contains(x) || pods_of(found).contains(
            x,
        ),
    decreases found.len(),
{
    let p = pods_of(found);
    if found.len() > 0 {
        let d = found.drop_last();
        let q = pods_of(d);
        let l = found.last().0;
        following_holds(followed, d, x);
        let f = following(followed, d);
        let r = following(followed, found);
        assert(p =~= q.push(l));
        assert(p[p.len() - 1] == l);
        if q.contains(x) {
            let i = choose|i: int| 0 <= i < q.len() && q[i] == x;
            assert(p[i] == x);
        }
        if p.contains(x) {
            let i = choose|i: int| 0 <= i < p.len() && p[i] == x;
            if i < q.len() {
                assert(q[i] == x);
            }
        }
        if !f.contains(l) {
            assert(r[r.len() - 1] == l);
            if f.contains(x) {
                let i = choose|i: int| 0 <= i < f.len() && f[i] == x;
                assert(r[i] == x);
            }
            if r.contains(x) {
                let i = choose|i: int| 0 <= i < r.len() && r[i] == x;
                if i < f.len() {
                    assert(f[i] == x);
                }
            }
        }
    } else {
        assert(p =~= Seq::empty());
    }
}

proof fn kept_holds(v: Seq<Seq<char>>, live: Seq<Seq<char>>, x: Seq<char>)
    ensures
        kept_texts(v, live).contains(x) <==> v.contains(x) && live.contains(x),
    decreases v.len(),
{
    if v.len() > 0 {
        let d = v.drop_last();
        let q = kept_texts(d, live);
        let r = kept_texts(v, live);
        kept_holds(d, live, x);
        assert(v[v.len() - 1] == v.last());
        if d.contains(x) {
            let i = choose|i: int| 0 <= i < d.len() && d[i] == x;
            assert(v[i] == x);
        }
        if v.contains(x) {
            let i = choose|i: int| 0 <= i < v.len() && v[i] == x;
            if i < d.len() {
                assert(d[i] == x);
            }
        }
        if live.contains(v.last()) {
            assert(r[r.len() - 1] == v.last());
            if q.contains(x) {
                let i = choose|i: int| 0 <= i < q.len() && q[i] == x;
                assert(r[i] == x);
            }
            if r.contains(x) {
                let i = choose|i: int| 0 <= i < r.len() && r[i] == x;
                if i < q.len() {
                    assert(q[i] == x);
                }
            }
        }
    }
}

proof fn newly_are_new(
    followed: Seq<Seq<char>>,
    found: Seq<(Seq<char>, Seq<char>)>,
    i: int,
)
    requires
        0 <= i < newly_followed(followed, found).len(),
    ensures
        !followed.contains(newly_followed(followed, found)[i].0),
        forall|j: int|
            0 <= j < i ==> (#[trigger] newly_followed(followed, found)[j]).0 != newly_followed(
                followed,
                found,
            )[i].0,
    decreases found.len(),
{
    if found.len() > 0 {
        let d = found.drop_last();
        let q = newly_followed(followed, d);
        let r = newly_followed(followed, found);
        if i < q.len() {
            newly_are_new(followed, d, i);
            assert(forall|j: int| 0 <= j < q.len() ==> r[j] == q[j]);
        } else {
            let x = found.last().0;
            following_holds(followed, d, x);
            assert forall|j: int| 0 <= j < i implies (#[trigger] r[j]).0 != x by {
                newly_in_found(followed, d, j);
                assert(r[j] == q[j]);
            }
        }
    }
}

proof fn newly_in_found(followed: Seq<Seq<char>>, found: Seq<(Seq<char>, Seq<char>)>, j: int)
    requires
        0 <= j < newly_followed(followed, found).len(),
    ensures
        pods_of(found).contains(newly_followed(followed, found)[j].0),
    decreases found.len(),
{
    if found.len() > 0 {
        let d = found.drop_last();
        let q = newly_followed(followed, d);
        let p = pods_of(found);
        assert(p[p.len() - 1] == found.last().0);
        if j < q.len() {
            newly_in_found(followed, d, j);
            let x = q[j].0;
            let i = choose|i: int| 0 <= i < pods_of(d).len() && pods_of(d)[i] == x;
            assert(p[i] == x);
        }
    }
}

/// A pod's logs are followed for as long as it is found, by one stream: one is started
/// only for a pod that has none, no two are started for one pod, and afterwards the
/// pods that are followed are those that were found.
pub proof fn followed_once(followed: Seq<Seq<char>>, found: Seq<(Seq<char>, Seq<char>)>)
    ensures
        forall|x: Seq<char>| #[trigger]
            kept_texts(following(followed, found), pods_of(found)).contains(x) <==> pods_of(
                found,
            ).contains(x),
        forall|i: int|
            0 <= i < newly_followed(followed, found).len() ==> !followed.contains(
                (#[trigger] newly_followed(followed, found)[i]).0,
            ),
        forall|i: int, j: int|
            0 <= j < i < newly_followed(followed, found).len() ==> (
            #[trigger] newly_followed(followed, found)[j]).0 != (
            #[trigger] newly_followed(followed, found)[i]).0,
{
    assert forall|x: Seq<char>| #[trigger]
        kept_texts(following(followed, found), pods_of(found)).contains(x) <==> pods_of(
        found,
    ).contains(x) by {
        following_holds(followed, found, x);
        kept_holds(following(followed, found), pods_of(found), x);
    }
    assert forall|i: int| 0 <= i < newly_followed(followed, found).len() implies !followed.contains(
        (#[trigger] newly_followed(followed, found)[i]).0,
    ) by {
        newly_are_new(followed, found, i);
    }
    assert forall|i: int, j: int| 0 <= j < i < newly_followed(followed, found).len() implies (
    #[trigger] newly_followed(followed, found)[j]).0 != (
    #[trigger] newly_followed(followed, found)[i]).0 by {
        newly_are_new(followed, found, i);
    }
}

/// The pods that forwards go to, by the names of their objects.
pub open spec fn forward_pod(v: Seq<(Seq<char>, Seq<char>)>, name: Seq<char>) -> Option<Seq<char>>
    decreases v.len(),
{
    if v.len() == 0 {
        None
    } else if v.last().0 == name {
        Some(v.last().1)
    } else {
        forward_pod(v.drop_last(), name)
    }
}

/// The forwards of other objects.
pub open spec fn forwards_without(v: Seq<(Seq<char>, Seq<char>)>, name: Seq<char>) -> Seq<
    (Seq<char>, Seq<char>),
>
    decreases v.len(),
{
    if v.len() == 0 {
        Seq::empty()
    } else if v.last().0 == name {
        forwards_without(v.drop_last(), name)
    } else {
        forwards_without(v.drop_last(), name).push(v.last())
    }
}

/// The forwards of the objects that are there.
pub open spec fn live_forwards(v: Seq<(Seq<char>, Seq<char>)>, live: Seq<Seq<char>>) -> Seq<
    (Seq<char>, Seq<char>),
>
    decreases v.len(),
{
    if v.len() == 0 {
        Seq::empty()
    } else if live.contains(v.last().0) {
        live_forwards(v.drop_last(), live).push(v.last())
    } else {
        live_forwards(v.drop_last(), live)
    }
}

/// The forwards that run: the names of their objects, and the pods that they go to.
#[derive(Debug)]
pub struct Forwards {
    running: Vec<(String, String)>,
}

impl View for Forwards {
    type V = Seq<(Seq<char>, Seq<char>)>;

    closed spec fn view(&self) -> Seq<(Seq<char>, Seq<char>)> {
        pairs(self.running@)
    }
}

impl Forwards {
    /// No forwards.
    pub fn new() -> (r: Forwards)
        ensures
            r@ == Seq::<(Seq<char>, Seq<char>)>::empty(),
    {
        let r = Forwards { running: Vec::new() };
        assert(r@ =~= Seq::empty());
        r
    }

    fn goes_to(&self, name: &str, pod: &str) -> (r: bool)
        ensures
            r == (forward_pod(self@, name@) == Some(pod@)),
    {
        let ghost all = self@;
        let mut i: usize = self.running.len();
        assert(all.take(i as int) =~= all);
        while i > 0
            invariant
                i <= self.running@.len(),
                all == pairs(self.running@),
                all == self@,
                forward_pod(all, name@) == forward_pod(all.take(i as int), name@),
            decreases i,
        {
            assert(all.take(i as int).last() == all[i - 1]);
            assert(all.take(i as int).drop_last() =~= all.take(i - 1));
            if same(self.running[i - 1].0.as_str(), name) {
                return same(self.running[i - 1].1.as_str(), pod);
            }
            i -= 1;
        }
        false
    }

    /// Takes the pod that the forwards of an object are to go to: whether they are to
    /// be started, instead of any that run. Those that go to the pod already are left
    /// alone, and so are all where there is no pod or nothing to forward.
    pub fn target(&mut self, name: &str, pod: &str, forwards: usize) -> (r: bool)
        ensures
            r == (pod@.len() > 0 && forwards > 0 && forward_pod(old(self)@, name@) != Some(pod@)),
            final(self)@ == (if r {
                forwards_without(old(self)@, name@).push((name@, pod@))
            } else {
                old(self)@
            }),
    {
        broadcast use pairs_push;

        if pod.is_empty() || forwards == 0 {
            return false;
        }
        let ghost all = self@;
        if self.goes_to(name, pod) {
            return false;
        }
        let mut kept: Vec<(String, String)> = Vec::new();
        let mut k: usize = 0;
        assert(pairs(kept@) =~= forwards_without(all.take(0), name@));
        while k < self.running.len()
            invariant
                k <= self.running@.len(),
                all == pairs(self.running@),
                pairs(kept@) == forwards_without(all.take(k as int), name@),
            decreases self.running@.len() - k,
        {
            proof {
                assert(all.take(k + 1).drop_last() =~= all.take(k as int));
                assert(all.take(k + 1).last() == (
                    self.running@[k as int].0@,
                    self.running@[k as int].1@,
                ));
            }
            if !same(self.running[k].0.as_str(), name) {
                kept.push((self.running[k].0.clone(), self.running[k].1.clone()));
            }
            k += 1;
        }
        assert(all.take(k as int) =~= all);
        kept.push((owned(name), owned(pod)));
        self.running = kept;
        true
    }

    /// Forgets the forwards of objects that are gone.
    pub fn keep_live(&mut self, live: &Vec<String>)
        ensures
            final(self)@ == live_forwards(old(self)@, texts(live@)),
    {
        broadcast use pairs_push;

        let ghost all = self@;
        let mut kept: Vec<(String, String)> = Vec::new();
        let mut k: usize = 0;
        assert(pairs(kept@) =~= live_forwards(all.take(0), texts(live@)));
        while k < self.running.len()
            invariant
                k <= self.running@.len(),
                all == pairs(self.running@),
                pairs(kept@) == live_forwards(all.take(k as int), texts(live@)),
            decreases self.running@.len() - k,
        {
            proof {
                assert(all.take(k + 1).drop_last() =~= all.take(k as int));
                assert(all.take(k + 1).last() == (
                    self.running@[k as int].0@,
                    self.running@[k as int].1@,
                ));
            }
            if among(self.running[k].0.as_str(), live) {
                kept.push((self.running[k].0.clone(), self.running[k].1.clone()));
            }
            k += 1;
        }
        assert(all.take(k as int) =~= all);
        self.running = kept;
    }
}

} // verus!
