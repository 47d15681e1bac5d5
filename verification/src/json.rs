//! JSON values and their mathematical counterparts.

use vstd::prelude::*;

use crate::text::{
    owned, precedes, same, text_lt, text_lt_asymmetric, text_lt_total, text_lt_transitive, texts,
};

verus! {

/// A JSON value as a mathematical object. A table is the sequence of its
/// entries.
pub enum JsonV {
    Null,
    Bool(bool),
    Int(int),
    Real(Seq<char>),
    Text(Seq<char>),
    List(Seq<JsonV>),
    Table(Seq<(Seq<char>, JsonV)>),
}

/// A JSON value. A number that is no integer is held by its written form; the
/// entries of a table are kept in the order of their keys.
#[derive(Debug, PartialEq)]
pub enum Json {
    Null,
    Bool(bool),
    Pos(u64),
    Neg(i64),
    Real(String),
    Text(String),
    List(Vec<Json>),
    Table(Vec<(String, Json)>),
}

pub open spec fn json_view(j: Json) -> JsonV
    decreases j,
{
    match j {
        Json::Null => JsonV::Null,
        Json::Bool(b) => JsonV::Bool(b),
        Json::Pos(n) => JsonV::Int(n as int),
        Json::Neg(n) => JsonV::Int(n as int),
        Json::Real(s) => JsonV::Real(s@),
        Json::Text(s) => JsonV::Text(s@),
        Json::List(v) => JsonV::List(list_view(v@)),
        Json::Table(e) => JsonV::Table(entries_view(e@)),
    }
}

/// The values of a list.
pub open spec fn list_view(v: Seq<Json>) -> Seq<JsonV>
    decreases v,
{
    if v.len() == 0 {
        Seq::empty()
    } else {
        list_view(v.drop_last()).push(json_view(v.last()))
    }
}

/// The entries of a table.
pub open spec fn entries_view(e: Seq<(String, Json)>) -> Seq<(Seq<char>, JsonV)>
    decreases e,
{
    if e.len() == 0 {
        Seq::empty()
    } else {
        entries_view(e.drop_last()).push((e.last().0@, json_view(e.last().1)))
    }
}

impl View for Json {
    type V = JsonV;

    open spec fn view(&self) -> JsonV {
        json_view(*self)
    }
}

/// The value of the first entry with the key.
pub open spec fn lookup(e: Seq<(Seq<char>, JsonV)>, k: Seq<char>) -> Option<JsonV>
    decreases e.len(),
{
    if e.len() == 0 {
        None
    } else if e[0].0 == k {
        Some(e[0].1)
    } else {
        lookup(e.drop_first(), k)
    }
}

/// The entries with the key's value set; a new key goes before the first one
/// that comes after it.
pub open spec fn put(e: Seq<(Seq<char>, JsonV)>, k: Seq<char>, v: JsonV) -> Seq<
    (Seq<char>, JsonV),
>
    decreases e.len(),
{
    if e.len() == 0 {
        seq![(k, v)]
    } else if e[0].0 == k {
        seq![(k, v)] + e.drop_first()
    } else if text_lt(k, e[0].0) {
        seq![(k, v)] + e
    } else {
        seq![e[0]] + put(e.drop_first(), k, v)
    }
}

/// The entries without the first one that has the key.
pub open spec fn without(e: Seq<(Seq<char>, JsonV)>, k: Seq<char>) -> Seq<(Seq<char>, JsonV)>
    decreases e.len(),
{
    if e.len() == 0 {
        e
    } else if e[0].0 == k {
        e.drop_first()
    } else {
        seq![e[0]] + without(e.drop_first(), k)
    }
}

/// Whether the keys are in order, each once.
pub open spec fn sorted(e: Seq<(Seq<char>, JsonV)>) -> bool {
    forall|i: int, j: int| 0 <= i < j < e.len() ==> text_lt(#[trigger] e[i].0, #[trigger] e[j].0)
}

/// Whether the key `low` comes before the keys of all entries.
pub open spec fn below(low: Seq<char>, e: Seq<(Seq<char>, JsonV)>) -> bool {
    forall|j: int| 0 <= j < e.len() ==> text_lt(low, #[trigger] e[j].0)
}

/// The table without entries.
pub open spec fn empty_table() -> JsonV {
    JsonV::Table(Seq::empty())
}

/// The table with the key's value set.
pub open spec fn with_key(t: JsonV, k: Seq<char>, v: JsonV) -> JsonV {
    match t {
        JsonV::Table(e) => JsonV::Table(put(e, k, v)),
        _ => t,
    }
}

/// The value at the key of a table, where there is one.
pub open spec fn get(t: JsonV, k: Seq<char>) -> Option<JsonV> {
    match t {
        JsonV::Table(e) => lookup(e, k),
        _ => None,
    }
}

/// The value at the key of a table, null where there is none.
pub open spec fn at(t: JsonV, k: Seq<char>) -> JsonV {
    match get(t, k) {
        Some(v) => v,
        None => JsonV::Null,
    }
}

pub open spec fn as_text(v: JsonV) -> Option<Seq<char>> {
    match v {
        JsonV::Text(s) => Some(s),
        _ => None,
    }
}

/// The text, or `default` where the value is no text.
pub open spec fn text_or(v: JsonV, default: Seq<char>) -> Seq<char> {
    match v {
        JsonV::Text(s) => s,
        _ => default,
    }
}

pub open spec fn as_list(v: JsonV) -> Option<Seq<JsonV>> {
    match v {
        JsonV::List(s) => Some(s),
        _ => None,
    }
}

/// The items of a list; none where the value is no list.
pub open spec fn items(v: JsonV) -> Seq<JsonV> {
    match v {
        JsonV::List(s) => s,
        _ => Seq::empty(),
    }
}

/// The boolean, or `false` where the value is no boolean.
pub open spec fn truth(v: JsonV) -> bool {
    match v {
        JsonV::Bool(b) => b,
        _ => false,
    }
}

/// The integer where it fits in 64 signed bits, else zero.
pub open spec fn signed_or_zero(v: JsonV) -> int {
    match v {
        JsonV::Int(n) => if i64::MIN <= n <= i64::MAX {
            n
        } else {
            0
        },
        _ => 0,
    }
}

/// The integer where it fits in 64 unsigned bits, else zero.
pub open spec fn unsigned_or_zero(v: JsonV) -> int {
    match v {
        JsonV::Int(n) => if 0 <= n <= u64::MAX {
            n
        } else {
            0
        },
        _ => 0,
    }
}

/// The list of the given texts.
pub open spec fn text_list(v: Seq<Seq<char>>) -> JsonV {
    JsonV::List(v.map_values(|s: Seq<char>| JsonV::Text(s)))
}

/// The views of the items of a list, one by one.
pub proof fn list_view_items(v: Seq<Json>)
    ensures
        list_view(v).len() == v.len(),
        forall|i: int| 0 <= i < v.len() ==> (#[trigger] list_view(v)[i]) == v[i]@,
    decreases v.len(),
{
    if v.len() > 0 {
        list_view_items(v.drop_last());
        assert forall|i: int| 0 <= i < v.len() implies (#[trigger] list_view(v)[i]) == v[i]@ by {
            if i < v.len() - 1 {
                assert(list_view(v)[i] == list_view(v.drop_last())[i]);
                assert(v.drop_last()[i] == v[i]);
            }
        }
    }
}

/// The view of a longer list.
pub proof fn list_view_push(v: Seq<Json>, x: Json)
    ensures
        list_view(v.push(x)) == list_view(v).push(x@),
{
    assert(v.push(x).drop_last() =~= v);
}

/// The views of the entries of a table, one by one.
pub proof fn entries_view_items(e: Seq<(String, Json)>)
    ensures
        entries_view(e).len() == e.len(),
        forall|i: int|
            0 <= i < e.len() ==> (#[trigger] entries_view(e)[i]) == (e[i].0@, e[i].1@),
    decreases e.len(),
{
    if e.len() > 0 {
        entries_view_items(e.drop_last());
        assert forall|i: int| 0 <= i < e.len() implies (#[trigger] entries_view(e)[i]) == (
            e[i].0@,
            e[i].1@,
        ) by {
            if i < e.len() - 1 {
                assert(entries_view(e)[i] == entries_view(e.drop_last())[i]);
                assert(e.drop_last()[i] == e[i]);
            }
        }
    }
}

/// What `put` sets is found, and nothing else is changed.
pub proof fn lookup_put(e: Seq<(Seq<char>, JsonV)>, k: Seq<char>, v: JsonV, other: Seq<char>)
    ensures
        lookup(put(e, k, v), other) == if other == k {
            Some(v)
        } else {
            lookup(e, other)
        },
    decreases e.len(),
{
    if e.len() > 0 {
        let p = put(e, k, v);
        if e[0].0 == k {
            assert(p.drop_first() =~= e.drop_first());
        } else if text_lt(k, e[0].0) {
            assert(p.drop_first() =~= e);
        } else {
            lookup_put(e.drop_first(), k, v, other);
            assert(p.drop_first() =~= put(e.drop_first(), k, v));
        }
    } else {
        assert(put(e, k, v).drop_first() =~= e);
    }
}

/// Of entries in order none has a key before the first one's.
pub proof fn sorted_tail(e: Seq<(Seq<char>, JsonV)>)
    requires
        sorted(e),
        e.len() > 0,
    ensures
        sorted(e.drop_first()),
        below(e[0].0, e.drop_first()),
{
    let t = e.drop_first();
    assert forall|i: int, j: int| 0 <= i < j < t.len() implies text_lt(
        #[trigger] t[i].0,
        #[trigger] t[j].0,
    ) by {
        assert(t[i] == e[i + 1] && t[j] == e[j + 1]);
    }
}

/// A key that comes before all others is not among them.
pub proof fn lookup_before(e: Seq<(Seq<char>, JsonV)>, k: Seq<char>)
    requires
        below(k, e),
    ensures
        lookup(e, k) is None,
    decreases e.len(),
{
    if e.len() > 0 {
        text_lt_asymmetric(k, e[0].0);
        assert forall|j: int| 0 <= j < e.drop_first().len() implies text_lt(
            k,
            #[trigger] e.drop_first()[j].0,
        ) by {
            assert(e.drop_first()[j] == e[j + 1]);
        }
        lookup_before(e.drop_first(), k);
    }
}

/// Setting a value keeps the keys in order.
pub proof fn put_sorted(e: Seq<(Seq<char>, JsonV)>, k: Seq<char>, v: JsonV)
    requires
        sorted(e),
    ensures
        sorted(put(e, k, v)),
        forall|low: Seq<char>|
            text_lt(low, k) && #[trigger] below(low, e) ==> below(low, put(e, k, v)),
    decreases e.len(),
{
    if e.len() > 0 {
        sorted_tail(e);
        let p = put(e, k, v);
        if e[0].0 == k {
            assert(forall|j: int| 0 < j < p.len() ==> p[j] == e[j]);
        } else if text_lt(k, e[0].0) {
            assert forall|i: int, j: int| 0 <= i < j < p.len() implies text_lt(
                #[trigger] p[i].0,
                #[trigger] p[j].0,
            ) by {
                assert(p[j] == e[j - 1]);
                if i == 0 {
                    if j > 1 {
                        text_lt_transitive(k, e[0].0, e[j - 1].0);
                    }
                } else {
                    assert(p[i] == e[i - 1]);
                }
            }
            assert(forall|j: int| 0 < j < p.len() ==> p[j] == e[j - 1]);
        } else {
            let q = put(e.drop_first(), k, v);
            put_sorted(e.drop_first(), k, v);
            text_lt_total(k, e[0].0);
            assert(below(e[0].0, e.drop_first()));
            assert(forall|j: int| 0 < j < p.len() ==> p[j] == q[j - 1]);
            assert forall|i: int, j: int| 0 <= i < j < p.len() implies text_lt(
                #[trigger] p[i].0,
                #[trigger] p[j].0,
            ) by {
                assert(p[j] == q[j - 1]);
                if i > 0 {
                    assert(p[i] == q[i - 1]);
                }
            }
            assert forall|low: Seq<char>| text_lt(low, k) && #[trigger] below(low, e) implies below(
                low,
                p,
            ) by {
                assert(text_lt(low, e[0].0));
                assert(below(low, e.drop_first())) by {
                    assert forall|j: int| 0 <= j < e.drop_first().len() implies text_lt(
                        low,
                        #[trigger] e.drop_first()[j].0,
                    ) by {
                        assert(e.drop_first()[j] == e[j + 1]);
                    }
                }
                assert forall|j: int| 0 <= j < p.len() implies text_lt(low, #[trigger] p[j].0) by {
                    if j > 0 {
                        assert(p[j] == q[j - 1]);
                    }
                }
            }
        }
    }
}

/// What `without` takes out is gone, and nothing else is changed.
pub proof fn lookup_without(e: Seq<(Seq<char>, JsonV)>, k: Seq<char>, other: Seq<char>)
    requires
        sorted(e),
    ensures
        sorted(without(e, k)),
        lookup(without(e, k), other) == if other == k {
            None
        } else {
            lookup(e, other)
        },
        forall|low: Seq<char>| #[trigger] below(low, e) ==> below(low, without(e, k)),
    decreases e.len(),
{
    if e.len() > 0 {
        sorted_tail(e);
        let w = without(e, k);
        let t = e.drop_first();
        if e[0].0 == k {
            lookup_before(t, k);
            assert(forall|j: int| 0 <= j < w.len() ==> w[j] == e[j + 1]);
        } else {
            let q = without(t, k);
            lookup_without(t, k, other);
            assert(w.drop_first() =~= q);
            assert(forall|j: int| 0 < j < w.len() ==> w[j] == q[j - 1]);
            assert forall|i: int, j: int| 0 <= i < j < w.len() implies text_lt(
                #[trigger] w[i].0,
                #[trigger] w[j].0,
            ) by {
                assert(w[j] == q[j - 1]);
                if i > 0 {
                    assert(w[i] == q[i - 1]);
                }
            }
            assert forall|low: Seq<char>| #[trigger] below(low, e) implies below(low, w) by {
                assert(below(low, t)) by {
                    assert forall|j: int| 0 <= j < t.len() implies text_lt(
                        low,
                        #[trigger] t[j].0,
                    ) by {
                        assert(t[j] == e[j + 1]);
                    }
                }
                assert forall|j: int| 0 <= j < w.len() implies text_lt(low, #[trigger] w[j].0) by {
                    if j > 0 {
                        assert(w[j] == q[j - 1]);
                    }
                }
            }
        }
    }
}

impl Clone for Json {
    fn clone(&self) -> (r: Self)
        ensures
            r@ == self@,
        decreases self,
    {
        match self {
            Json::Null => Json::Null,
            Json::Bool(b) => Json::Bool(*b),
            Json::Pos(n) => Json::Pos(*n),
            Json::Neg(n) => Json::Neg(*n),
            Json::Real(s) => Json::Real(s.clone()),
            Json::Text(s) => Json::Text(s.clone()),
            Json::List(v) => Json::List(clone_list(v)),
            Json::Table(e) => Json::Table(clone_entries(e)),
        }
    }
}

/// A list with the same items.
pub fn clone_list(v: &Vec<Json>) -> (r: Vec<Json>)
    ensures
        list_view(r@) == list_view(v@),
    decreases v,
{
    let mut r: Vec<Json> = Vec::new();
    let mut i: usize = 0;
    assert(v@.take(0) =~= Seq::<Json>::empty());
    while i < v.len()
        invariant
            i <= v@.len(),
            list_view(r@) == list_view(v@.take(i as int)),
        decreases v@.len() - i,
    {
        assert(decreases_to!(*v => v@[i as int]));
        let item: Json = v[i].clone();
        proof {
            list_view_push(r@, item);
            list_view_push(v@.take(i as int), v@[i as int]);
        }
        r.push(item);
        assert(v@.take(i + 1) =~= v@.take(i as int).push(v@[i as int]));
        i += 1;
    }
    assert(v@.take(i as int) =~= v@);
    r
}

/// A table with the same entries.
pub fn clone_entries(e: &Vec<(String, Json)>) -> (r: Vec<(String, Json)>)
    ensures
        entries_view(r@) == entries_view(e@),
    decreases e,
{
    let mut r: Vec<(String, Json)> = Vec::new();
    let mut i: usize = 0;
    assert(e@.take(0) =~= Seq::<(String, Json)>::empty());
    while i < e.len()
        invariant
            i <= e@.len(),
            entries_view(r@) == entries_view(e@.take(i as int)),
        decreases e@.len() - i,
    {
        assert(decreases_to!(*e => e@[i as int]));
        let ghost before = r@;
        r.push((e[i].0.clone(), e[i].1.clone()));
        proof {
            assert(r@.drop_last() =~= before);
            assert(e@.take(i + 1).drop_last() =~= e@.take(i as int));
            assert(e@.take(i + 1).last() == e@[i as int]);
        }
        i += 1;
    }
    assert(e@.take(i as int) =~= e@);
    r
}

impl Json {
    /// The table without entries.
    pub fn table() -> (r: Json)
        ensures
            r@ == empty_table(),
    {
        Json::Table(Vec::new())
    }

    /// The list without items.
    pub fn empty_list() -> (r: Json)
        ensures
            r@ == JsonV::List(Seq::empty()),
    {
        Json::List(Vec::new())
    }

    /// A text.
    pub fn text(s: &str) -> (r: Json)
        ensures
            r@ == JsonV::Text(s@),
    {
        Json::Text(owned(s))
    }

    /// The list of the given texts.
    pub fn text_list(v: &Vec<String>) -> (r: Json)
        ensures
            r@ == text_list(texts(v@)),
    {
            let mut out: Vec<Json> = Vec::new();
        let mut i: usize = 0;
        while i < v.len()
            invariant
                i <= v@.len(),
                list_view(out@) =~= texts(v@).take(i as int).map_values(
                    |s: Seq<char>| JsonV::Text(s),
                ),
            decreases v@.len() - i,
        {
            let item: Json = Json::Text(v[i].clone());
            proof {
                list_view_push(out@, item);
            }
            out.push(item);
            i += 1;
        }
        assert(texts(v@).take(i as int) =~= texts(v@));
        Json::List(out)
    }

    /// The value at the key of a table, where there is one.
    pub fn get(&self, k: &str) -> (r: Option<&Json>)
        ensures
            match r {
                Some(v) => get(self@, k@) == Some(v@),
                None => get(self@, k@) is None,
            },
    {
        match self {
            Json::Table(e) => {
                let mut i: usize = 0;
                let ghost all = entries_view(e@);
                proof {
                    entries_view_items(e@);
                }
                assert(all.skip(0) =~= all);
                while i < e.len()
                    invariant
                        i <= e@.len(),
                        *self == Json::Table(*e),
                        all == entries_view(e@),
                        all.len() == e@.len(),
                        forall|j: int|
                            0 <= j < e@.len() ==> (#[trigger] all[j]) == (e@[j].0@, e@[j].1@),
                        lookup(all, k@) == lookup(all.skip(i as int), k@),
                    decreases e@.len() - i,
                {
                    assert(all.skip(i as int)[0] == all[i as int]);
                    if same(e[i].0.as_str(), k) {
                        return Some(&e[i].1);
                    }
                    assert(all.skip(i as int).drop_first() =~= all.skip(i + 1));
                    i += 1;
                }
                None
            },
            _ => None,
        }
    }

    /// The value at the key of a table, null where there is none.
    pub fn at(&self, k: &str) -> (r: &Json)
        ensures
            r@ == at(self@, k@),
    {
        match self.get(k) {
            Some(v) => v,
            None => &Json::Null,
        }
    }

    /// The text, where the value is one.
    pub fn as_str(&self) -> (r: Option<&str>)
        ensures
            match r {
                Some(s) => as_text(self@) == Some(s@),
                None => as_text(self@) is None,
            },
    {
        match self {
            Json::Text(s) => Some(s.as_str()),
            _ => None,
        }
    }

    /// The text, or `default` where the value is no text.
    pub fn str_or<'a>(&'a self, default: &'a str) -> (r: &'a str)
        ensures
            r@ == text_or(self@, default@),
    {
        match self {
            Json::Text(s) => s.as_str(),
            _ => default,
        }
    }

    /// The boolean, or `false` where the value is no boolean.
    pub fn is_true(&self) -> (r: bool)
        ensures
            r == truth(self@),
    {
        match self {
            Json::Bool(b) => *b,
            _ => false,
        }
    }

    /// The integer where it fits in 64 signed bits, else zero.
    pub fn signed_or_zero(&self) -> (r: i64)
        ensures
            r == signed_or_zero(self@),
    {
        match self {
            Json::Pos(n) => if *n <= i64::MAX as u64 {
                *n as i64
            } else {
                0
            },
            Json::Neg(n) => *n,
            _ => 0,
        }
    }

    /// The integer where it fits in 64 unsigned bits, else zero.
    pub fn unsigned_or_zero(&self) -> (r: u64)
        ensures
            r == unsigned_or_zero(self@),
    {
        match self {
            Json::Pos(n) => *n,
            Json::Neg(n) => if *n >= 0 {
                *n as u64
            } else {
                0
            },
            _ => 0,
        }
    }

    /// The items, where the value is a list.
    pub fn as_list(&self) -> (r: Option<&Vec<Json>>)
        ensures
            match r {
                Some(v) => as_list(self@) == Some(list_view(v@)),
                None => as_list(self@) is None,
            },
    {
        match self {
            Json::List(v) => Some(v),
            _ => None,
        }
    }

    /// The table with the key's value set; any other value as it is.
    pub fn with(self, k: &str, v: Json) -> (r: Json)
        ensures
            r@ == with_key(self@, k@, v@),
    {
        match self {
            Json::Table(e) => {
                let mut e = e;
                put_entry(&mut e, k, v);
                Json::Table(e)
            },
            other => other,
        }
    }
}

/// Sets the value at the key.
pub fn put_entry(e: &mut Vec<(String, Json)>, k: &str, v: Json)
    ensures
        entries_view(final(e)@) == put(entries_view(old(e)@), k@, v@),
{
    let ghost e0 = e@;
    let ghost all = entries_view(e@);
    let mut i: usize = 0;
    proof {
        entries_view_items(e0);
        assert(all.skip(0) =~= all);
        assert(all.take(0) + put(all.skip(0), k@, v@) =~= put(all, k@, v@));
    }
    while i < e.len()
        invariant
            i <= e@.len(),
            e@ == e0,
            e0 == old(e)@,
            all == entries_view(e0),
            all.len() == e0.len(),
            forall|j: int| 0 <= j < e0.len() ==> (#[trigger] all[j]) == (e0[j].0@, e0[j].1@),
            put(all, k@, v@) == all.take(i as int) + put(all.skip(i as int), k@, v@),
        decreases e@.len() - i,
    {
        let ghost rest = all.skip(i as int);
        assert(rest[0] == all[i as int]);
        if same(e[i].0.as_str(), k) {
            let ghost vv = v@;
            e.set(i, (owned(k), v));
            proof {
                entries_view_items(e@);
                assert(entries_view(e@) =~= all.take(i as int) + (seq![(k@, vv)]
                    + rest.drop_first()));
            }
            return;
        }
        if precedes(k, e[i].0.as_str()) {
            let ghost vv = v@;
            e.insert(i, (owned(k), v));
            proof {
                entries_view_items(e@);
                assert(entries_view(e@) =~= all.take(i as int) + (seq![(k@, vv)] + rest));
            }
            return;
        }
        proof {
            assert(rest.drop_first() =~= all.skip(i + 1));
            assert(all.take(i as int) + (seq![rest[0]] + put(rest.drop_first(), k@, v@))
                =~= all.take(i + 1) + put(all.skip(i + 1), k@, v@));
        }
        i += 1;
    }
    let ghost vv = v@;
    e.push((owned(k), v));
    proof {
        entries_view_items(e@);
        assert(all.skip(i as int).len() == 0);
        assert(entries_view(e@) =~= all.take(i as int) + seq![(k@, vv)]);
    }
}

/// Takes out the entry with the key, where there is one.
pub fn drop_entry(e: &mut Vec<(String, Json)>, k: &str)
    ensures
        entries_view(final(e)@) == without(entries_view(old(e)@), k@),
{
    let ghost e0 = e@;
    let ghost all = entries_view(e@);
    let mut i: usize = 0;
    proof {
        entries_view_items(e0);
        assert(all.skip(0) =~= all);
        assert(all.take(0) + without(all.skip(0), k@) =~= without(all, k@));
    }
    while i < e.len()
        invariant
            i <= e@.len(),
            e@ == e0,
            e0 == old(e)@,
            all == entries_view(e0),
            all.len() == e0.len(),
            forall|j: int| 0 <= j < e0.len() ==> (#[trigger] all[j]) == (e0[j].0@, e0[j].1@),
            without(all, k@) == all.take(i as int) + without(all.skip(i as int), k@),
        decreases e@.len() - i,
    {
        let ghost rest = all.skip(i as int);
        assert(rest[0] == all[i as int]);
        if same(e[i].0.as_str(), k) {
            e.remove(i);
            proof {
                entries_view_items(e@);
                assert(entries_view(e@) =~= all.take(i as int) + rest.drop_first());
            }
            return;
        }
        proof {
            assert(rest.drop_first() =~= all.skip(i + 1));
            assert(all.take(i as int) + (seq![rest[0]] + without(rest.drop_first(), k@))
                =~= all.take(i + 1) + without(all.skip(i + 1), k@));
        }
        i += 1;
    }
    assert(all.take(i as int) + without(all.skip(i as int), k@) =~= all);
}

} // verus!
