//! The in-memory store of API objects: objects under `(kind, namespace, name)`,
//! with a resource version that every change raises, a `uid` for each object,
//! and a stream of add, modify and delete events.

use vstd::prelude::*;
use vstd::string::*;

use crate::api::merge::{merge, merge_patch};
pub use crate::api::schema::{
    field_type, known_kinds, openapi_document, spec_fields, spec_schema, API_VERSION,
};
use crate::json::{at, empty_table, get, lookup_put, with_key, Json, JsonV};
use crate::text::{
    cat, cat3, dec, dec_injective, decimal, owned, precedes, same, text_lt, text_lt_asymmetric,
    text_lt_irreflexive, text_lt_total, text_lt_transitive, texts, texts_push,
};

verus! {

/// A stored object as a mathematical object.
pub struct ObjectV {
    pub kind: Seq<char>,
    pub namespace: Seq<char>,
    pub name: Seq<char>,
    pub uid: Seq<char>,
    pub resource_version: nat,
    pub object: JsonV,
}

/// A stored object plus the bookkeeping that the store maintains for it.
#[derive(Debug, PartialEq)]
pub struct StoredObject {
    pub kind: String,
    pub namespace: String,
    pub name: String,
    pub uid: String,
    pub resource_version: u64,
    /// The full object, with `kind`, `apiVersion` and `metadata` kept in sync
    /// with the bookkeeping fields above.
    pub object: Json,
}

impl View for StoredObject {
    type V = ObjectV;

    open spec fn view(&self) -> ObjectV {
        ObjectV {
            kind: self.kind@,
            namespace: self.namespace@,
            name: self.name@,
            uid: self.uid@,
            resource_version: self.resource_version as nat,
            object: self.object@,
        }
    }
}

impl Clone for StoredObject {
    fn clone(&self) -> (r: Self)
        ensures
            r@ == self@,
    {
        StoredObject {
            kind: self.kind.clone(),
            namespace: self.namespace.clone(),
            name: self.name.clone(),
            uid: self.uid.clone(),
            resource_version: self.resource_version,
            object: self.object.clone(),
        }
    }
}

/// The contents of a list of objects.
pub open spec fn objects_view(v: Seq<StoredObject>) -> Seq<ObjectV> {
    v.map_values(|o: StoredObject| o@)
}

/// A watch event as a mathematical object.
pub enum EventV {
    Added(ObjectV),
    Modified(ObjectV),
    Deleted(ObjectV),
}

/// A watch event.
#[derive(Debug, PartialEq)]
pub enum ObjectEvent {
    Added(StoredObject),
    Modified(StoredObject),
    Deleted(StoredObject),
}

impl View for ObjectEvent {
    type V = EventV;

    open spec fn view(&self) -> EventV {
        match self {
            ObjectEvent::Added(o) => EventV::Added(o@),
            ObjectEvent::Modified(o) => EventV::Modified(o@),
            ObjectEvent::Deleted(o) => EventV::Deleted(o@),
        }
    }
}

impl Clone for ObjectEvent {
    fn clone(&self) -> (r: Self)
        ensures
            r@ == self@,
    {
        match self {
            ObjectEvent::Added(o) => ObjectEvent::Added(o.clone()),
            ObjectEvent::Modified(o) => ObjectEvent::Modified(o.clone()),
            ObjectEvent::Deleted(o) => ObjectEvent::Deleted(o.clone()),
        }
    }
}

/// The contents of a list of events.
pub open spec fn events_view(v: Seq<ObjectEvent>) -> Seq<EventV> {
    v.map_values(|e: ObjectEvent| e@)
}

/// Why a request was refused.
#[derive(Debug, PartialEq, Eq)]
pub enum ApiError {
    /// `create` on a key that already exists.
    AlreadyExists { kind: String, name: String },
    /// `replace` or `patch` on a key that does not exist.
    NotFound { kind: String, name: String },
}

impl ApiError {
    /// The message shown to the user.
    pub open spec fn text(&self) -> Seq<char> {
        match self {
            ApiError::AlreadyExists { kind, name } => kind@ + " \""@ + name@
                + "\" already exists"@,
            ApiError::NotFound { kind, name } => kind@ + " \""@ + name@ + "\" not found"@,
        }
    }

    /// The message shown to the user.
    pub fn message(&self) -> (r: String)
        ensures
            r@ == self.text(),
    {
        match self {
            ApiError::AlreadyExists { kind, name } => {
                let mut r = cat3(kind.as_str(), " \"", name.as_str());
                r.append("\" already exists");
                r
            },
            ApiError::NotFound { kind, name } => {
                let mut r = cat3(kind.as_str(), " \"", name.as_str());
                r.append("\" not found");
                r
            },
        }
    }
}

/// What an object is stored under: kind, namespace and name.
pub open spec fn key_of(o: ObjectV) -> (Seq<char>, Seq<char>, Seq<char>) {
    (o.kind, o.namespace, o.name)
}

/// The order of the keys: by kind, then by namespace, then by name.
pub open spec fn key_lt(
    a: (Seq<char>, Seq<char>, Seq<char>),
    b: (Seq<char>, Seq<char>, Seq<char>),
) -> bool {
    text_lt(a.0, b.0) || (a.0 == b.0 && (text_lt(a.1, b.1) || (a.1 == b.1 && text_lt(a.2, b.2))))
}

/// The value itself where it is a table, else the table without entries.
pub open spec fn table_or_empty(v: JsonV) -> JsonV {
    if v is Table {
        v
    } else {
        empty_table()
    }
}

/// The metadata of an object with the bookkeeping written into it.
pub open spec fn stamped_metadata(
    metadata: JsonV,
    namespace: Seq<char>,
    name: Seq<char>,
    uid: Seq<char>,
    resource_version: nat,
) -> JsonV {
    with_key(
        with_key(
            with_key(
                with_key(table_or_empty(metadata), "name"@, JsonV::Text(name)),
                "namespace"@,
                JsonV::Text(namespace),
            ),
            "uid"@,
            JsonV::Text(uid),
        ),
        "resourceVersion"@,
        JsonV::Text(dec(resource_version)),
    )
}

/// The object with the bookkeeping written into it.
pub open spec fn stamped(
    kind: Seq<char>,
    namespace: Seq<char>,
    name: Seq<char>,
    uid: Seq<char>,
    resource_version: nat,
    object: JsonV,
) -> ObjectV {
    let typed = with_key(
        with_key(table_or_empty(object), "kind"@, JsonV::Text(kind)),
        "apiVersion"@,
        JsonV::Text("tilt.dev/v1alpha1"@),
    );
    ObjectV {
        kind,
        namespace,
        name,
        uid,
        resource_version,
        object: with_key(
            typed,
            "metadata"@,
            stamped_metadata(at(typed, "metadata"@), namespace, name, uid, resource_version),
        ),
    }
}

/// Whether the object's JSON says what the bookkeeping says.
pub open spec fn in_sync(o: ObjectV) -> bool {
    let metadata = at(o.object, "metadata"@);
    &&& at(o.object, "kind"@) == JsonV::Text(o.kind)
    &&& at(o.object, "apiVersion"@) == JsonV::Text("tilt.dev/v1alpha1"@)
    &&& at(metadata, "name"@) == JsonV::Text(o.name)
    &&& at(metadata, "namespace"@) == JsonV::Text(o.namespace)
    &&& at(metadata, "uid"@) == JsonV::Text(o.uid)
    &&& at(metadata, "resourceVersion"@) == JsonV::Text(dec(o.resource_version))
}

/// Writes the bookkeeping into the object.
pub fn stamp(
    kind: &str,
    namespace: &str,
    name: &str,
    uid: &str,
    resource_version: u64,
    object: Json,
) -> (r: StoredObject)
    ensures
        r@ == stamped(kind@, namespace@, name@, uid@, resource_version as nat, object@),
{
    let base: Json = as_table(object);
    let typed: Json = base.with("kind", Json::text(kind)).with(
        "apiVersion",
        Json::text("tilt.dev/v1alpha1"),
    );
    let metadata: Json = as_table(typed.at("metadata").clone());
    let metadata: Json = metadata.with("name", Json::text(name)).with(
        "namespace",
        Json::text(namespace),
    ).with("uid", Json::text(uid)).with("resourceVersion", Json::Text(decimal(resource_version)));
    StoredObject {
        kind: owned(kind),
        namespace: owned(namespace),
        name: owned(name),
        uid: owned(uid),
        resource_version,
        object: typed.with("metadata", metadata),
    }
}

fn as_table(v: Json) -> (r: Json)
    ensures
        r@ == table_or_empty(v@),
{
    match v {
        Json::Table(e) => Json::Table(e),
        _ => Json::table(),
    }
}

/// Setting a key of a table and reading a key.
pub proof fn at_with_key(t: JsonV, k: Seq<char>, v: JsonV, other: Seq<char>)
    requires
        t is Table,
    ensures
        with_key(t, k, v) is Table,
        at(with_key(t, k, v), other) == if other == k {
            v
        } else {
            at(t, other)
        },
        get(with_key(t, k, v), other) == if other == k {
            Some(v)
        } else {
            get(t, other)
        },
{
    if let JsonV::Table(e) = t {
        lookup_put(e, k, v, other);
    }
}

/// A stamped object says what its bookkeeping says.
pub proof fn stamped_in_sync(
    kind: Seq<char>,
    namespace: Seq<char>,
    name: Seq<char>,
    uid: Seq<char>,
    resource_version: nat,
    object: JsonV,
)
    ensures
        in_sync(stamped(kind, namespace, name, uid, resource_version, object)),
{
    reveal_strlit("kind");
    reveal_strlit("apiVersion");
    reveal_strlit("metadata");
    reveal_strlit("name");
    reveal_strlit("namespace");
    reveal_strlit("uid");
    reveal_strlit("resourceVersion");
    assert("kind"@[0] == 'k' && "apiVersion"@[0] == 'a' && "metadata"@[0] == 'm');
    assert("name"@.len() == 4 && "namespace"@.len() == 9 && "uid"@.len() == 3
        && "resourceVersion"@.len() == 15);
    let o = stamped(kind, namespace, name, uid, resource_version, object);
    let base = table_or_empty(object);
    let t1 = with_key(base, "kind"@, JsonV::Text(kind));
    let t2 = with_key(t1, "apiVersion"@, JsonV::Text("tilt.dev/v1alpha1"@));
    let m0 = table_or_empty(at(t2, "metadata"@));
    let m1 = with_key(m0, "name"@, JsonV::Text(name));
    let m2 = with_key(m1, "namespace"@, JsonV::Text(namespace));
    let m3 = with_key(m2, "uid"@, JsonV::Text(uid));
    let v4 = JsonV::Text(dec(resource_version));
    let m4 = with_key(m3, "resourceVersion"@, v4);
    at_with_key(base, "kind"@, JsonV::Text(kind), "kind"@);
    at_with_key(t1, "apiVersion"@, JsonV::Text("tilt.dev/v1alpha1"@), "kind"@);
    at_with_key(t1, "apiVersion"@, JsonV::Text("tilt.dev/v1alpha1"@), "apiVersion"@);
    at_with_key(t2, "metadata"@, m4, "kind"@);
    at_with_key(t2, "metadata"@, m4, "apiVersion"@);
    at_with_key(t2, "metadata"@, m4, "metadata"@);
    at_with_key(m0, "name"@, JsonV::Text(name), "name"@);
    at_with_key(m1, "namespace"@, JsonV::Text(namespace), "name"@);
    at_with_key(m1, "namespace"@, JsonV::Text(namespace), "namespace"@);
    at_with_key(m2, "uid"@, JsonV::Text(uid), "name"@);
    at_with_key(m2, "uid"@, JsonV::Text(uid), "namespace"@);
    at_with_key(m2, "uid"@, JsonV::Text(uid), "uid"@);
    at_with_key(m3, "resourceVersion"@, v4, "name"@);
    at_with_key(m3, "resourceVersion"@, v4, "namespace"@);
    at_with_key(m3, "resourceVersion"@, v4, "uid"@);
    at_with_key(m3, "resourceVersion"@, v4, "resourceVersion"@);
}

/// A store as a mathematical object: its objects in the order of their keys, the
/// counters, and the events that were not taken yet.
pub struct StoreV {
    pub objects: Seq<ObjectV>,
    pub resource_version: nat,
    pub next_uid: nat,
    pub events: Seq<EventV>,
}

/// The object under the key.
pub open spec fn find_object(
    objects: Seq<ObjectV>,
    key: (Seq<char>, Seq<char>, Seq<char>),
) -> Option<ObjectV>
    decreases objects.len(),
{
    if objects.len() == 0 {
        None
    } else if key_of(objects[0]) == key {
        Some(objects[0])
    } else {
        find_object(objects.drop_first(), key)
    }
}

/// The objects with `o` in the place that its key has among them, instead of any
/// other object under that key.
pub open spec fn upsert(objects: Seq<ObjectV>, o: ObjectV) -> Seq<ObjectV>
    decreases objects.len(),
{
    if objects.len() == 0 {
        seq![o]
    } else if key_of(objects[0]) == key_of(o) {
        seq![o] + objects.drop_first()
    } else if key_lt(key_of(o), key_of(objects[0])) {
        seq![o] + objects
    } else {
        seq![objects[0]] + upsert(objects.drop_first(), o)
    }
}

/// The objects without the one under the key.
pub open spec fn without_object(
    objects: Seq<ObjectV>,
    key: (Seq<char>, Seq<char>, Seq<char>),
) -> Seq<ObjectV>
    decreases objects.len(),
{
    if objects.len() == 0 {
        objects
    } else if key_of(objects[0]) == key {
        objects.drop_first()
    } else {
        seq![objects[0]] + without_object(objects.drop_first(), key)
    }
}

/// The objects of a kind, in their order.
pub open spec fn of_kind(objects: Seq<ObjectV>, kind: Seq<char>) -> Seq<ObjectV> {
    objects.filter(|o: ObjectV| o.kind == kind)
}

/// The kinds of the objects, each once where equal ones stand together.
pub open spec fn held_kinds(objects: Seq<ObjectV>) -> Seq<Seq<char>>
    decreases objects.len(),
{
    if objects.len() == 0 {
        Seq::empty()
    } else {
        let k = held_kinds(objects.drop_last());
        if k.len() > 0 && k.last() == objects.last().kind {
            k
        } else {
            k.push(objects.last().kind)
        }
    }
}

/// The `uid` that is the `n`-th to be assigned.
pub open spec fn nth_uid(n: nat) -> Seq<char> {
    "uid-"@ + dec(n)
}

/// Whether the objects are in the order of their keys, one under each.
pub open spec fn objects_sorted(objects: Seq<ObjectV>) -> bool {
    forall|i: int, j: int|
        0 <= i < j < objects.len() ==> key_lt(
            key_of(#[trigger] objects[i]),
            key_of(#[trigger] objects[j]),
        )
}

/// Whether `n` is the number of the object's `uid`.
pub open spec fn has_uid(o: ObjectV, n: nat) -> bool {
    o.uid == nth_uid(n)
}

/// What holds of an object of a store: its JSON is in sync, its resource version
/// was given out, and so was its `uid`.
pub open spec fn object_ok(o: ObjectV, s: StoreV) -> bool {
    &&& in_sync(o)
    &&& 1 <= o.resource_version <= s.resource_version
    &&& exists|n: nat| 1 <= n <= s.next_uid && #[trigger] has_uid(o, n)
}

impl StoreV {
    /// What every store keeps: one object under each key, in the order of the
    /// keys; each object in sync with its bookkeeping; no two objects with the
    /// same `uid` or the same resource version.
    pub open spec fn ok(self) -> bool {
        &&& objects_sorted(self.objects)
        &&& forall|i: int| 0 <= i < self.objects.len() ==> object_ok(#[trigger] self.objects[i], self)
        &&& forall|i: int, j: int|
            0 <= i < j < self.objects.len() ==> (#[trigger] self.objects[i]).uid != (
            #[trigger] self.objects[j]).uid
        &&& forall|i: int, j: int|
            0 <= i < j < self.objects.len() ==> (#[trigger] self.objects[i]).resource_version != (
            #[trigger] self.objects[j]).resource_version
    }

    /// The object under the key.
    pub open spec fn find(self, kind: Seq<char>, namespace: Seq<char>, name: Seq<char>) -> Option<
        ObjectV,
    > {
        find_object(self.objects, (kind, namespace, name))
    }

    /// The store after it took a new object.
    pub open spec fn created(
        self,
        kind: Seq<char>,
        namespace: Seq<char>,
        name: Seq<char>,
        object: JsonV,
    ) -> StoreV {
        let o = stamped(
            kind,
            namespace,
            name,
            nth_uid(self.next_uid + 1),
            self.resource_version + 1,
            object,
        );
        StoreV {
            objects: upsert(self.objects, o),
            resource_version: self.resource_version + 1,
            next_uid: self.next_uid + 1,
            events: self.events.push(EventV::Added(o)),
        }
    }

    /// The store after the object under a key got other contents.
    pub open spec fn replaced(
        self,
        kind: Seq<char>,
        namespace: Seq<char>,
        name: Seq<char>,
        object: JsonV,
    ) -> StoreV {
        let uid = self.find(kind, namespace, name)->0.uid;
        let o = stamped(kind, namespace, name, uid, self.resource_version + 1, object);
        StoreV {
            objects: upsert(self.objects, o),
            resource_version: self.resource_version + 1,
            next_uid: self.next_uid,
            events: self.events.push(EventV::Modified(o)),
        }
    }

    /// The store after the object under a key was created or replaced.
    pub open spec fn applied(
        self,
        kind: Seq<char>,
        namespace: Seq<char>,
        name: Seq<char>,
        object: JsonV,
    ) -> StoreV {
        if self.find(kind, namespace, name) is Some {
            self.replaced(kind, namespace, name, object)
        } else {
            self.created(kind, namespace, name, object)
        }
    }

    /// The store after a merge patch of the object under a key; the store itself
    /// where there is none.
    pub open spec fn patched(
        self,
        kind: Seq<char>,
        namespace: Seq<char>,
        name: Seq<char>,
        patch: JsonV,
    ) -> StoreV {
        match self.find(kind, namespace, name) {
            Some(o) => self.replaced(kind, namespace, name, merge(o.object, patch)),
            None => self,
        }
    }

    /// The store without the object under a key; the store itself where there is
    /// none.
    pub open spec fn deleted(
        self,
        kind: Seq<char>,
        namespace: Seq<char>,
        name: Seq<char>,
    ) -> StoreV {
        match self.find(kind, namespace, name) {
            Some(o) => StoreV {
                objects: without_object(self.objects, (kind, namespace, name)),
                resource_version: self.resource_version + 1,
                next_uid: self.next_uid,
                events: self.events.push(EventV::Deleted(o)),
            },
            None => self,
        }
    }

    /// Whether the counters leave room for `n` more changes.
    pub open spec fn room(self, n: nat) -> bool {
        self.resource_version + n <= u64::MAX && self.next_uid + n <= u64::MAX
    }
}

/// The order of the keys is one: no key before itself, transitive, total.
pub proof fn key_order(
    a: (Seq<char>, Seq<char>, Seq<char>),
    b: (Seq<char>, Seq<char>, Seq<char>),
    c: (Seq<char>, Seq<char>, Seq<char>),
)
    ensures
        !key_lt(a, a),
        key_lt(a, b) && key_lt(b, c) ==> key_lt(a, c),
        a == b || key_lt(a, b) || key_lt(b, a),
        key_lt(a, b) ==> !key_lt(b, a) && a != b,
{
    text_lt_irreflexive(a.0);
    text_lt_irreflexive(a.1);
    text_lt_irreflexive(a.2);
    text_lt_total(a.0, b.0);
    text_lt_total(a.1, b.1);
    text_lt_total(a.2, b.2);
    if text_lt(a.0, b.0) {
        text_lt_asymmetric(a.0, b.0);
        if text_lt(b.0, c.0) {
            text_lt_transitive(a.0, b.0, c.0);
        }
    }
    if text_lt(a.1, b.1) {
        text_lt_asymmetric(a.1, b.1);
        if text_lt(b.1, c.1) {
            text_lt_transitive(a.1, b.1, c.1);
        }
    }
    if text_lt(a.2, b.2) {
        text_lt_asymmetric(a.2, b.2);
        if text_lt(b.2, c.2) {
            text_lt_transitive(a.2, b.2, c.2);
        }
    }
}

/// Objects in order are in order behind the first one, which comes before them.
pub proof fn objects_tail(objects: Seq<ObjectV>)
    requires
        objects_sorted(objects),
        objects.len() > 0,
    ensures
        objects_sorted(objects.drop_first()),
        forall|j: int|
            0 <= j < objects.drop_first().len() ==> key_lt(
                key_of(objects[0]),
                key_of(#[trigger] objects.drop_first()[j]),
            ),
{
    let t = objects.drop_first();
    assert(forall|j: int| 0 <= j < t.len() ==> t[j] == objects[j + 1]);
}

/// The object under a key is one of the objects, and the only one under it.
pub proof fn find_object_index(
    objects: Seq<ObjectV>,
    key: (Seq<char>, Seq<char>, Seq<char>),
)
    requires
        objects_sorted(objects),
    ensures
        match find_object(objects, key) {
            Some(o) => exists|i: int|
                0 <= i < objects.len() && #[trigger] objects[i] == o && key_of(o) == key,
            None => forall|i: int| 0 <= i < objects.len() ==> key_of(#[trigger] objects[i]) != key,
        },
    decreases objects.len(),
{
    if objects.len() > 0 {
        let t = objects.drop_first();
        objects_tail(objects);
        find_object_index(t, key);
        assert(forall|j: int| 0 <= j < t.len() ==> t[j] == objects[j + 1]);
        if key_of(objects[0]) != key {
            match find_object(t, key) {
                Some(o) => {
                    let i = choose|i: int|
                        0 <= i < t.len() && #[trigger] t[i] == o && key_of(o) == key;
                    assert(objects[i + 1] == o);
                },
                None => {
                    assert forall|i: int| 0 <= i < objects.len() implies key_of(
                        #[trigger] objects[i],
                    ) != key by {
                        if i > 0 {
                            assert(t[i - 1] == objects[i]);
                        }
                    }
                },
            }
        } else {
            assert(objects[0] == find_object(objects, key)->0);
        }
    }
}

/// Each of the objects is the one under its key.
pub proof fn find_object_at(objects: Seq<ObjectV>, i: int)
    requires
        objects_sorted(objects),
        0 <= i < objects.len(),
    ensures
        find_object(objects, key_of(objects[i])) == Some(objects[i]),
    decreases objects.len(),
{
    if i > 0 {
        objects_tail(objects);
        assert(objects.drop_first()[i - 1] == objects[i]);
        find_object_at(objects.drop_first(), i - 1);
        key_order(key_of(objects[0]), key_of(objects[i]), key_of(objects[i]));
    }
}

/// What `upsert` puts in is found, every other object stays, and the order holds.
pub proof fn upsert_ok(objects: Seq<ObjectV>, o: ObjectV)
    requires
        objects_sorted(objects),
    ensures
        objects_sorted(upsert(objects, o)),
        forall|key: (Seq<char>, Seq<char>, Seq<char>)|
            #[trigger] find_object(upsert(objects, o), key) == if key == key_of(o) {
                Some(o)
            } else {
                find_object(objects, key)
            },
        forall|i: int|
            0 <= i < upsert(objects, o).len() ==> (#[trigger] upsert(objects, o)[i]) == o
                || exists|j: int|
                0 <= j < objects.len() && #[trigger] objects[j] == upsert(objects, o)[i]
                    && key_of(objects[j]) != key_of(o),
    decreases objects.len(),
{
    let u = upsert(objects, o);
    if objects.len() == 0 {
        assert(u.drop_first() =~= objects);
    } else {
        let t = objects.drop_first();
        objects_tail(objects);
        assert(forall|j: int| 0 <= j < t.len() ==> t[j] == objects[j + 1]);
        key_order(key_of(o), key_of(objects[0]), key_of(objects[0]));
        key_order(key_of(objects[0]), key_of(o), key_of(o));
        if key_of(objects[0]) == key_of(o) {
            assert(u.drop_first() =~= t);
            assert(forall|j: int| 0 < j < u.len() ==> u[j] == objects[j]);
            assert forall|i: int| 0 <= i < u.len() implies (#[trigger] u[i]) == o || exists|j: int|
                0 <= j < objects.len() && #[trigger] objects[j] == u[i] && key_of(objects[j])
                    != key_of(o) by {
                if i > 0 {
                    assert(objects[i] == u[i]);
                    key_order(key_of(objects[0]), key_of(objects[i]), key_of(o));
                }
            }
        } else if key_lt(key_of(o), key_of(objects[0])) {
            assert(u.drop_first() =~= objects);
            assert(forall|j: int| 0 < j < u.len() ==> u[j] == objects[j - 1]);
            assert forall|i: int, j: int| 0 <= i < j < u.len() implies key_lt(
                key_of(#[trigger] u[i]),
                key_of(#[trigger] u[j]),
            ) by {
                assert(u[j] == objects[j - 1]);
                if i > 0 {
                    assert(u[i] == objects[i - 1]);
                } else if j > 1 {
                    key_order(key_of(o), key_of(objects[0]), key_of(objects[j - 1]));
                }
            }
            assert forall|i: int| 0 <= i < u.len() implies (#[trigger] u[i]) == o || exists|j: int|
                0 <= j < objects.len() && #[trigger] objects[j] == u[i] && key_of(objects[j])
                    != key_of(o) by {
                if i > 0 {
                    assert(objects[i - 1] == u[i]);
                    key_order(key_of(o), key_of(objects[0]), key_of(objects[i - 1]));
                    key_order(key_of(o), key_of(objects[i - 1]), key_of(o));
                }
            }
        } else {
            let q = upsert(t, o);
            upsert_ok(t, o);
            assert(u.drop_first() =~= q);
            assert(forall|j: int| 0 < j < u.len() ==> u[j] == q[j - 1]);
            assert forall|i: int, j: int| 0 <= i < j < u.len() implies key_lt(
                key_of(#[trigger] u[i]),
                key_of(#[trigger] u[j]),
            ) by {
                assert(u[j] == q[j - 1]);
                if i > 0 {
                    assert(u[i] == q[i - 1]);
                } else if q[j - 1] != o {
                    let m = choose|m: int|
                        0 <= m < t.len() && #[trigger] t[m] == q[j - 1] && key_of(t[m]) != key_of(
                            o,
                        );
                    assert(key_lt(key_of(objects[0]), key_of(t[m])));
                }
            }
            assert forall|i: int| 0 <= i < u.len() implies (#[trigger] u[i]) == o || exists|j: int|
                0 <= j < objects.len() && #[trigger] objects[j] == u[i] && key_of(objects[j])
                    != key_of(o) by {
                if i > 0 {
                    assert(u[i] == q[i - 1]);
                    if q[i - 1] != o {
                        let m = choose|m: int|
                            0 <= m < t.len() && #[trigger] t[m] == q[i - 1] && key_of(t[m])
                                != key_of(o);
                        assert(objects[m + 1] == u[i]);
                    }
                } else {
                    assert(objects[0] == u[0]);
                }
            }
            assert forall|key: (Seq<char>, Seq<char>, Seq<char>)|
                #[trigger] find_object(u, key) == if key == key_of(o) {
                    Some(o)
                } else {
                    find_object(objects, key)
                } by {
                assert(find_object(q, key) == if key == key_of(o) {
                    Some(o)
                } else {
                    find_object(t, key)
                });
            }
        }
    }
}

/// What `without_object` takes out is gone, every other object stays, and the
/// order holds.
pub proof fn without_object_ok(objects: Seq<ObjectV>, k: (Seq<char>, Seq<char>, Seq<char>))
    requires
        objects_sorted(objects),
    ensures
        objects_sorted(without_object(objects, k)),
        forall|key: (Seq<char>, Seq<char>, Seq<char>)|
            #[trigger] find_object(without_object(objects, k), key) == if key == k {
                None
            } else {
                find_object(objects, key)
            },
        without_object(objects, k) == objects || exists|p: int|
            0 <= p < objects.len() && without_object(objects, k) == #[trigger] objects.remove(p),
    decreases objects.len(),
{
    let w = without_object(objects, k);
    if objects.len() > 0 {
        let t = objects.drop_first();
        objects_tail(objects);
        assert(forall|j: int| 0 <= j < t.len() ==> t[j] == objects[j + 1]);
        if key_of(objects[0]) == k {
            assert forall|key: (Seq<char>, Seq<char>, Seq<char>)|
                #[trigger] find_object(w, key) == if key == k {
                    None
                } else {
                    find_object(objects, key)
                } by {
                if key == k {
                    find_object_index(t, k);
                    if find_object(t, k) is Some {
                        let i = choose|i: int|
                            0 <= i < t.len() && #[trigger] t[i] == find_object(t, k)->0 && key_of(
                                find_object(t, k)->0,
                            ) == k;
                        key_order(k, key_of(t[i]), k);
                    }
                }
            }
            assert(w =~= objects.remove(0));
        } else {
            let q = without_object(t, k);
            without_object_ok(t, k);
            assert(w.drop_first() =~= q);
            if q == t {
                assert(w =~= objects);
            } else {
                let p = choose|p: int| 0 <= p < t.len() && q == #[trigger] t.remove(p);
                assert(w =~= objects.remove(p + 1));
            }
            assert forall|key: (Seq<char>, Seq<char>, Seq<char>)|
                #[trigger] find_object(w, key) == if key == k {
                    None
                } else {
                    find_object(objects, key)
                } by {
                assert(find_object(q, key) == if key == k {
                    None
                } else {
                    find_object(t, key)
                });
            }
        }
    }
}

/// An in-memory store of API objects.
pub struct ApiObjectStore {
    objects: Vec<StoredObject>,
    resource_version: u64,
    next_uid: u64,
    events: Vec<ObjectEvent>,
}

impl View for ApiObjectStore {
    type V = StoreV;

    closed spec fn view(&self) -> StoreV {
        StoreV {
            objects: objects_view(self.objects@),
            resource_version: self.resource_version as nat,
            next_uid: self.next_uid as nat,
            events: events_view(self.events@),
        }
    }
}

/// Whether the object stands under the key.
fn has_key(o: &StoredObject, kind: &str, namespace: &str, name: &str) -> (r: bool)
    ensures
        r == (key_of(o@) == (kind@, namespace@, name@)),
{
    same(o.kind.as_str(), kind) && same(o.namespace.as_str(), namespace) && same(
        o.name.as_str(),
        name,
    )
}

/// Whether the key comes before the object's.
fn key_before(kind: &str, namespace: &str, name: &str, o: &StoredObject) -> (r: bool)
    ensures
        r == key_lt((kind@, namespace@, name@), key_of(o@)),
{
    precedes(kind, o.kind.as_str()) || (same(kind, o.kind.as_str()) && (precedes(
        namespace,
        o.namespace.as_str(),
    ) || (same(namespace, o.namespace.as_str()) && precedes(name, o.name.as_str()))))
}

/// Puts the object in the place that its key has.
fn upsert_object(objects: &mut Vec<StoredObject>, o: StoredObject)
    ensures
        objects_view(final(objects)@) == upsert(objects_view(old(objects)@), o@),
{
    let ghost all = objects_view(objects@);
    let ghost before = objects@;
    let ghost ov = o@;
    let mut i: usize = 0;
    proof {
        assert(all.skip(0) =~= all);
        assert(all.take(0) + upsert(all.skip(0), ov) =~= upsert(all, ov));
    }
    while i < objects.len()
        invariant
            i <= objects@.len(),
            objects@ == before,
            before == old(objects)@,
            all == objects_view(before),
            ov == o@,
            upsert(all, ov) == all.take(i as int) + upsert(all.skip(i as int), ov),
        decreases objects@.len() - i,
    {
        let ghost rest = all.skip(i as int);
        assert(rest[0] == before[i as int]@);
        if has_key(&objects[i], o.kind.as_str(), o.namespace.as_str(), o.name.as_str()) {
            objects.set(i, o);
            assert(objects_view(objects@) =~= all.take(i as int) + (seq![ov]
                + rest.drop_first()));
            return;
        }
        if key_before(o.kind.as_str(), o.namespace.as_str(), o.name.as_str(), &objects[i]) {
            objects.insert(i, o);
            assert(objects_view(objects@) =~= all.take(i as int) + (seq![ov] + rest));
            return;
        }
        proof {
            assert(rest.drop_first() =~= all.skip(i + 1));
            assert(all.take(i as int) + (seq![rest[0]] + upsert(rest.drop_first(), ov))
                =~= all.take(i + 1) + upsert(all.skip(i + 1), ov));
        }
        i += 1;
    }
    objects.push(o);
    assert(all.skip(i as int).len() == 0);
    assert(objects_view(objects@) =~= all.take(i as int) + seq![ov]);
}

/// A change of the counters alone keeps what holds of an object.
proof fn object_stays_ok(o: ObjectV, s: StoreV, t: StoreV)
    requires
        object_ok(o, s),
        s.resource_version <= t.resource_version,
        s.next_uid <= t.next_uid,
    ensures
        object_ok(o, t),
{
    let n = choose|n: nat| 1 <= n <= s.next_uid && #[trigger] has_uid(o, n);
    assert(1 <= n <= t.next_uid && has_uid(o, n));
}

/// The numbers of two `uid`s are told apart by their texts.
proof fn uid_injective(a: nat, b: nat)
    requires
        nth_uid(a) == nth_uid(b),
    ensures
        a == b,
{
    let p = "uid-"@;
    assert(nth_uid(a).skip(p.len() as int) =~= dec(a));
    assert(nth_uid(b).skip(p.len() as int) =~= dec(b));
    dec_injective(a, b);
}

impl StoreV {
    /// Creating an object under a free key keeps the store well formed.
    pub proof fn created_ok(
        self,
        kind: Seq<char>,
        namespace: Seq<char>,
        name: Seq<char>,
        object: JsonV,
    )
        requires
            self.ok(),
            self.find(kind, namespace, name) is None,
        ensures
            self.created(kind, namespace, name, object).ok(),
    {
        let t = self.created(kind, namespace, name, object);
        let o = stamped(
            kind,
            namespace,
            name,
            nth_uid(self.next_uid + 1),
            self.resource_version + 1,
            object,
        );
        stamped_in_sync(
            kind,
            namespace,
            name,
            nth_uid(self.next_uid + 1),
            self.resource_version + 1,
            object,
        );
        assert(has_uid(o, self.next_uid + 1));
        self.upserted_ok(o, t);
    }

    /// Replacing an object keeps the store well formed.
    pub proof fn replaced_ok(
        self,
        kind: Seq<char>,
        namespace: Seq<char>,
        name: Seq<char>,
        object: JsonV,
    )
        requires
            self.ok(),
            self.find(kind, namespace, name) is Some,
        ensures
            self.replaced(kind, namespace, name, object).ok(),
    {
        let t = self.replaced(kind, namespace, name, object);
        let key = (kind, namespace, name);
        let old_o = find_object(self.objects, key)->0;
        let o = stamped(kind, namespace, name, old_o.uid, self.resource_version + 1, object);
        stamped_in_sync(kind, namespace, name, old_o.uid, self.resource_version + 1, object);
        find_object_index(self.objects, key);
        let i = choose|i: int|
            0 <= i < self.objects.len() && #[trigger] self.objects[i] == old_o && key_of(old_o)
                == key;
        assert(object_ok(self.objects[i], self));
        let n = choose|n: nat| 1 <= n <= self.next_uid && #[trigger] has_uid(old_o, n);
        assert(has_uid(o, n));
        self.upserted_ok(o, t);
    }

    /// What `created_ok` and `replaced_ok` share.
    proof fn upserted_ok(self, o: ObjectV, t: StoreV)
        requires
            self.ok(),
            t.objects == upsert(self.objects, o),
            t.resource_version == self.resource_version + 1,
            o.resource_version == t.resource_version,
            self.next_uid <= t.next_uid,
            object_ok(o, t),
            match find_object(self.objects, key_of(o)) {
                Some(p) => o.uid == p.uid,
                None => o.uid == nth_uid(self.next_uid + 1),
            },
        ensures
            t.ok(),
    {
        upsert_ok(self.objects, o);
        find_object_index(self.objects, key_of(o));
        let u = t.objects;
        assert forall|i: int| 0 <= i < u.len() && u[i] != o implies {
            &&& object_ok(#[trigger] u[i], t)
            &&& u[i].uid != o.uid
            &&& u[i].resource_version != o.resource_version
            &&& key_of(u[i]) != key_of(o)
        } by {
            let j = choose|j: int|
                0 <= j < self.objects.len() && #[trigger] self.objects[j] == u[i] && key_of(
                    self.objects[j],
                ) != key_of(o);
            assert(object_ok(self.objects[j], self));
            object_stays_ok(self.objects[j], self, t);
            match find_object(self.objects, key_of(o)) {
                Some(p) => {
                    let m = choose|m: int|
                        0 <= m < self.objects.len() && #[trigger] self.objects[m] == p && key_of(p)
                            == key_of(o);
                    if m < j {
                        assert(self.objects[m].uid != self.objects[j].uid);
                    } else {
                        assert(self.objects[j].uid != self.objects[m].uid);
                    }
                },
                None => {
                    let n = choose|n: nat|
                        1 <= n <= self.next_uid && #[trigger] has_uid(self.objects[j], n);
                    if n == self.next_uid + 1 {
                        assert(false);
                    }
                    if nth_uid(n) == nth_uid(self.next_uid + 1) {
                        uid_injective(n, self.next_uid + 1);
                    }
                },
            }
        }
        assert forall|i: int, j: int| 0 <= i < j < u.len() implies (#[trigger] u[i]).uid != (
        #[trigger] u[j]).uid && u[i].resource_version != u[j].resource_version by {
            key_order(key_of(u[i]), key_of(u[j]), key_of(o));
            if u[i] != o && u[j] != o {
                let a = choose|a: int|
                    0 <= a < self.objects.len() && #[trigger] self.objects[a] == u[i] && key_of(
                        self.objects[a],
                    ) != key_of(o);
                let b = choose|b: int|
                    0 <= b < self.objects.len() && #[trigger] self.objects[b] == u[j] && key_of(
                        self.objects[b],
                    ) != key_of(o);
                if a < b {
                    assert(self.objects[a].uid != self.objects[b].uid);
                    assert(self.objects[a].resource_version != self.objects[b].resource_version);
                } else if b < a {
                    assert(self.objects[b].uid != self.objects[a].uid);
                    assert(self.objects[b].resource_version != self.objects[a].resource_version);
                }
            }
        }
    }

    /// Deleting an object keeps the store well formed.
    pub proof fn deleted_ok(self, kind: Seq<char>, namespace: Seq<char>, name: Seq<char>)
        requires
            self.ok(),
        ensures
            self.deleted(kind, namespace, name).ok(),
    {
        let t = self.deleted(kind, namespace, name);
        let key = (kind, namespace, name);
        without_object_ok(self.objects, key);
        if self.find(kind, namespace, name) is Some {
            let w = t.objects;
            let s = self.objects;
            if w == s {
                assert forall|i: int| 0 <= i < w.len() implies object_ok(#[trigger] w[i], t) by {
                    object_stays_ok(s[i], self, t);
                }
            } else {
                let p = choose|p: int| 0 <= p < s.len() && w == #[trigger] s.remove(p);
                let f = |i: int|
                    if i < p {
                        i
                    } else {
                        i + 1
                    };
                assert forall|i: int| 0 <= i < w.len() implies object_ok(#[trigger] w[i], t) by {
                    assert(w[i] == s[f(i)]);
                    object_stays_ok(s[f(i)], self, t);
                }
                assert forall|i: int, j: int| 0 <= i < j < w.len() implies (#[trigger] w[i]).uid != (
                #[trigger] w[j]).uid && w[i].resource_version != w[j].resource_version by {
                    assert(w[i] == s[f(i)] && w[j] == s[f(j)]);
                    assert(s[f(i)].uid != s[f(j)].uid);
                    assert(s[f(i)].resource_version != s[f(j)].resource_version);
                }
            }
        }
    }
}

impl ApiObjectStore {
    /// A store without objects.
    pub fn new() -> (r: ApiObjectStore)
        ensures
            r@ == (StoreV {
                objects: Seq::empty(),
                resource_version: 0,
                next_uid: 0,
                events: Seq::empty(),
            }),
            r@.ok(),
    {
        let r = ApiObjectStore {
            objects: Vec::new(),
            resource_version: 0,
            next_uid: 0,
            events: Vec::new(),
        };
        assert(r@.objects =~= Seq::empty());
        assert(r@.events =~= Seq::empty());
        r
    }

    /// The index of the object under the key.
    fn index_of(&self, kind: &str, namespace: &str, name: &str) -> (r: Option<usize>)
        ensures
            match r {
                Some(i) => i < self.objects@.len() && self@.find(kind@, namespace@, name@) == Some(
                    self.objects@[i as int]@,
                ) && without_object(self@.objects, (kind@, namespace@, name@))
                    == self@.objects.remove(i as int),
                None => self@.find(kind@, namespace@, name@) is None,
            },
    {
        let ghost all = objects_view(self.objects@);
        let ghost key = (kind@, namespace@, name@);
        let mut i: usize = 0;
        proof {
            assert(all.skip(0) =~= all);
            assert(without_object(all, key) =~= all.take(0) + without_object(all.skip(0), key));
        }
        while i < self.objects.len()
            invariant
                i <= self.objects@.len(),
                all == objects_view(self.objects@),
                key == (kind@, namespace@, name@),
                find_object(all, key) == find_object(all.skip(i as int), key),
                without_object(all, key) == all.take(i as int) + without_object(
                    all.skip(i as int),
                    key,
                ),
            decreases self.objects@.len() - i,
        {
            let ghost rest = all.skip(i as int);
            assert(rest[0] == self.objects@[i as int]@);
            assert(rest.drop_first() =~= all.skip(i + 1));
            if has_key(&self.objects[i], kind, namespace, name) {
                assert(all.take(i as int) + rest.drop_first() =~= all.remove(i as int));
                return Some(i);
            }
            assert(all.take(i as int) + (seq![rest[0]] + without_object(rest.drop_first(), key))
                =~= all.take(i + 1) + without_object(all.skip(i + 1), key));
            i += 1;
        }
        None
    }

    /// Stores the object and records the event.
    fn put(&mut self, o: StoredObject, added: bool)
        requires
            o.resource_version == old(self).resource_version,
        ensures
            final(self)@ == (StoreV {
                objects: upsert(old(self)@.objects, o@),
                events: old(self)@.events.push(
                    if added {
                        EventV::Added(o@)
                    } else {
                        EventV::Modified(o@)
                    },
                ),
                ..old(self)@
            }),
    {
        let event: ObjectEvent = if added {
            ObjectEvent::Added(o.clone())
        } else {
            ObjectEvent::Modified(o.clone())
        };
        upsert_object(&mut self.objects, o);
        let ghost before = self.events@;
        self.events.push(event);
        assert(events_view(self.events@) =~= events_view(before).push(event@));
    }

    /// Creates an object. Refused where the key is taken.
    pub fn create(
        &mut self,
        kind: &str,
        namespace: &str,
        name: &str,
        object: Json,
    ) -> (r: Result<StoredObject, ApiError>)
        requires
            old(self)@.ok(),
            old(self)@.room(1),
        ensures
            final(self)@.ok(),
            match r {
                Ok(o) => {
                    &&& old(self)@.find(kind@, namespace@, name@) is None
                    &&& o@ == stamped(
                        kind@,
                        namespace@,
                        name@,
                        nth_uid(old(self)@.next_uid + 1),
                        old(self)@.resource_version + 1,
                        object@,
                    )
                    &&& final(self)@ == old(self)@.created(kind@, namespace@, name@, object@)
                },
                Err(ApiError::AlreadyExists { kind: k, name: n }) => {
                    &&& old(self)@.find(kind@, namespace@, name@) is Some
                    &&& k@ == kind@
                    &&& n@ == name@
                    &&& final(self)@ == old(self)@
                },
                Err(ApiError::NotFound { .. }) => false,
            },
    {
        if self.index_of(kind, namespace, name).is_some() {
            return Err(ApiError::AlreadyExists { kind: owned(kind), name: owned(name) });
        }
        proof {
            self@.created_ok(kind@, namespace@, name@, object@);
        }
        self.next_uid += 1;
        let uid: String = cat("uid-", decimal(self.next_uid).as_str());
        self.resource_version += 1;
        let stored = stamp(kind, namespace, name, uid.as_str(), self.resource_version, object);
        self.put(stored.clone(), true);
        Ok(stored)
    }

    /// Gives the object under a key other contents, keeping its `uid`. Refused
    /// where there is none.
    pub fn replace(
        &mut self,
        kind: &str,
        namespace: &str,
        name: &str,
        object: Json,
    ) -> (r: Result<StoredObject, ApiError>)
        requires
            old(self)@.ok(),
            old(self)@.room(1),
        ensures
            final(self)@.ok(),
            match r {
                Ok(o) => {
                    &&& old(self)@.find(kind@, namespace@, name@) is Some
                    &&& o@ == stamped(
                        kind@,
                        namespace@,
                        name@,
                        old(self)@.find(kind@, namespace@, name@)->0.uid,
                        old(self)@.resource_version + 1,
                        object@,
                    )
                    &&& final(self)@ == old(self)@.replaced(kind@, namespace@, name@, object@)
                },
                Err(ApiError::NotFound { kind: k, name: n }) => {
                    &&& old(self)@.find(kind@, namespace@, name@) is None
                    &&& k@ == kind@
                    &&& n@ == name@
                    &&& final(self)@ == old(self)@
                },
                Err(ApiError::AlreadyExists { .. }) => false,
            },
    {
        match self.index_of(kind, namespace, name) {
            None => Err(ApiError::NotFound { kind: owned(kind), name: owned(name) }),
            Some(i) => {
                proof {
                    self@.replaced_ok(kind@, namespace@, name@, object@);
                }
                let uid: String = self.objects[i].uid.clone();
                self.resource_version += 1;
                let stored = stamp(
                    kind,
                    namespace,
                    name,
                    uid.as_str(),
                    self.resource_version,
                    object,
                );
                self.put(stored.clone(), false);
                Ok(stored)
            },
        }
    }

    /// Creates the object where the key is free, else replaces it.
    pub fn apply(&mut self, kind: &str, namespace: &str, name: &str, object: Json) -> (r:
        StoredObject)
        requires
            old(self)@.ok(),
            old(self)@.room(1),
        ensures
            final(self)@.ok(),
            final(self)@ == old(self)@.applied(kind@, namespace@, name@, object@),
            final(self)@.find(kind@, namespace@, name@) == Some(r@),
    {
        proof {
            self@.applied_finds(kind@, namespace@, name@, object@);
        }
        match self.index_of(kind, namespace, name) {
            Some(i) => {
                proof {
                    self@.replaced_ok(kind@, namespace@, name@, object@);
                }
                let uid: String = self.objects[i].uid.clone();
                self.resource_version += 1;
                let stored = stamp(
                    kind,
                    namespace,
                    name,
                    uid.as_str(),
                    self.resource_version,
                    object,
                );
                self.put(stored.clone(), false);
                stored
            },
            None => {
                proof {
                    self@.created_ok(kind@, namespace@, name@, object@);
                }
                self.next_uid += 1;
                let uid: String = cat("uid-", decimal(self.next_uid).as_str());
                self.resource_version += 1;
                let stored = stamp(
                    kind,
                    namespace,
                    name,
                    uid.as_str(),
                    self.resource_version,
                    object,
                );
                self.put(stored.clone(), true);
                stored
            },
        }
    }

    /// Applies a JSON merge patch to the object under a key, keeping its `uid`.
    /// Refused where there is none.
    pub fn patch(&mut self, kind: &str, namespace: &str, name: &str, patch: Json) -> (r: Result<
        StoredObject,
        ApiError,
    >)
        requires
            old(self)@.ok(),
            old(self)@.room(1),
        ensures
            final(self)@.ok(),
            final(self)@ == old(self)@.patched(kind@, namespace@, name@, patch@),
            match r {
                Ok(o) => {
                    &&& old(self)@.find(kind@, namespace@, name@) is Some
                    &&& final(self)@.find(kind@, namespace@, name@) == Some(o@)
                },
                Err(ApiError::NotFound { kind: k, name: n }) => {
                    &&& old(self)@.find(kind@, namespace@, name@) is None
                    &&& k@ == kind@
                    &&& n@ == name@
                },
                Err(ApiError::AlreadyExists { .. }) => false,
            },
    {
        match self.index_of(kind, namespace, name) {
            None => Err(ApiError::NotFound { kind: owned(kind), name: owned(name) }),
            Some(i) => {
                let merged: Json = merge_patch(self.objects[i].object.clone(), &patch);
                proof {
                    self@.replaced_ok(kind@, namespace@, name@, merged@);
                    self@.applied_finds(kind@, namespace@, name@, merged@);
                }
                let uid: String = self.objects[i].uid.clone();
                self.resource_version += 1;
                let stored = stamp(
                    kind,
                    namespace,
                    name,
                    uid.as_str(),
                    self.resource_version,
                    merged,
                );
                self.put(stored.clone(), false);
                Ok(stored)
            },
        }
    }

    /// The object under a key.
    pub fn get(&self, kind: &str, namespace: &str, name: &str) -> (r: Option<StoredObject>)
        ensures
            match r {
                Some(o) => self@.find(kind@, namespace@, name@) == Some(o@),
                None => self@.find(kind@, namespace@, name@) is None,
            },
    {
        match self.index_of(kind, namespace, name) {
            Some(i) => Some(self.objects[i].clone()),
            None => None,
        }
    }

    /// The objects of a kind, in the order of namespace and name.
    pub fn list(&self, kind: &str) -> (r: Vec<StoredObject>)
        ensures
            objects_view(r@) == of_kind(self@.objects, kind@),
    {
        let mut r: Vec<StoredObject> = Vec::new();
        let mut i: usize = 0;
        let ghost all = self@.objects;
        let ghost want = |o: ObjectV| o.kind == kind@;
        assert(objects_view(r@) =~= all.take(0).filter(want)) by {
            reveal(Seq::filter);
        }
        while i < self.objects.len()
            invariant
                i <= self.objects@.len(),
                all == objects_view(self.objects@),
                want == |o: ObjectV| o.kind == kind@,
                objects_view(r@) == all.take(i as int).filter(want),
            decreases self.objects@.len() - i,
        {
            let ghost before = r@;
            proof {
                reveal(Seq::filter);
                assert(all.take(i + 1).drop_last() =~= all.take(i as int));
                assert(all.take(i + 1).last() == self.objects@[i as int]@);
            }
            if same(self.objects[i].kind.as_str(), kind) {
                r.push(self.objects[i].clone());
                assert(objects_view(r@) =~= objects_view(before).push(self.objects@[i as int]@));
            }
            i += 1;
        }
        assert(all.take(i as int) =~= all);
        r
    }

    /// Every object, in the order of kind, namespace and name.
    pub fn all(&self) -> (r: Vec<StoredObject>)
        ensures
            objects_view(r@) == self@.objects,
    {
        let mut r: Vec<StoredObject> = Vec::new();
        let mut i: usize = 0;
        assert(objects_view(r@) =~= objects_view(self.objects@).take(0));
        while i < self.objects.len()
            invariant
                i <= self.objects@.len(),
                objects_view(r@) == objects_view(self.objects@).take(i as int),
            decreases self.objects@.len() - i,
        {
            let o: StoredObject = self.objects[i].clone();
            let ghost before = r@;
            r.push(o);
            assert(objects_view(r@) =~= objects_view(before).push(o@));
            assert(objects_view(self.objects@).take(i + 1) =~= objects_view(self.objects@).take(
                i as int,
            ).push(self.objects@[i as int]@));
            i += 1;
        }
        assert(objects_view(self.objects@).take(i as int) =~= objects_view(self.objects@));
        r
    }

    /// The kinds that the store holds objects of, sorted.
    pub fn kinds(&self) -> (r: Vec<String>)
        ensures
            texts(r@) == held_kinds(self@.objects),
    {
        broadcast use texts_push;

        let mut r: Vec<String> = Vec::new();
        let mut i: usize = 0;
        let ghost all = self@.objects;
        assert(texts(r@) =~= held_kinds(all.take(0)));
        while i < self.objects.len()
            invariant
                i <= self.objects@.len(),
                all == objects_view(self.objects@),
                texts(r@) == held_kinds(all.take(i as int)),
            decreases self.objects@.len() - i,
        {
            proof {
                assert(all.take(i + 1).drop_last() =~= all.take(i as int));
                assert(all.take(i + 1).last() == self.objects@[i as int]@);
            }
            if r.len() == 0 || !same(r[r.len() - 1].as_str(), self.objects[i].kind.as_str()) {
                r.push(self.objects[i].kind.clone());
            }
            i += 1;
        }
        assert(all.take(i as int) =~= all);
        r
    }

    /// Whether the counters leave room for `n` more changes.
    pub fn has_room(&self, n: u64) -> (r: bool)
        ensures
            r == self@.room(n as nat),
    {
        self.resource_version <= u64::MAX - n && self.next_uid <= u64::MAX - n
    }

    /// Takes out the object under a key, where there is one.
    pub fn delete(&mut self, kind: &str, namespace: &str, name: &str) -> (r: Option<StoredObject>)
        requires
            old(self)@.ok(),
            old(self)@.room(1),
        ensures
            final(self)@.ok(),
            final(self)@ == old(self)@.deleted(kind@, namespace@, name@),
            match r {
                Some(o) => old(self)@.find(kind@, namespace@, name@) == Some(o@),
                None => old(self)@.find(kind@, namespace@, name@) is None,
            },
    {
        proof {
            self@.deleted_ok(kind@, namespace@, name@);
        }
        match self.index_of(kind, namespace, name) {
            Some(i) => {
                let ghost all = self.objects@;
                let removed = self.objects.remove(i);
                assert(objects_view(self.objects@) =~= objects_view(all).remove(i as int));
                self.resource_version += 1;
                let ghost before = self.events@;
                let event = ObjectEvent::Deleted(removed.clone());
                self.events.push(event);
                assert(events_view(self.events@) =~= events_view(before).push(event@));
                Some(removed)
            },
            None => None,
        }
    }

    /// The events since the last call, oldest first.
    pub fn take_events(&mut self) -> (r: Vec<ObjectEvent>)
        ensures
            events_view(r@) == old(self)@.events,
            final(self)@ == (StoreV { events: Seq::empty(), ..old(self)@ }),
    {
        let mut r: Vec<ObjectEvent> = Vec::new();
        r.append(&mut self.events);
        assert(events_view(r@) =~= old(self)@.events);
        assert(events_view(self.events@) =~= Seq::empty());
        r
    }
}

impl StoreV {
    /// What `apply` stores is found under its key, and every other key finds what
    /// it found before.
    pub proof fn applied_finds(
        self,
        kind: Seq<char>,
        namespace: Seq<char>,
        name: Seq<char>,
        object: JsonV,
    )
        requires
            self.ok(),
        ensures
            self.applied(kind, namespace, name, object).find(kind, namespace, name) == Some(
                stamped(
                    kind,
                    namespace,
                    name,
                    match self.find(kind, namespace, name) {
                        Some(o) => o.uid,
                        None => nth_uid(self.next_uid + 1),
                    },
                    self.resource_version + 1,
                    object,
                ),
            ),
            forall|k: Seq<char>, ns: Seq<char>, n: Seq<char>|
                (k, ns, n) != (kind, namespace, name) ==> #[trigger] self.applied(
                    kind,
                    namespace,
                    name,
                    object,
                ).find(k, ns, n) == self.find(k, ns, n),
    {
        let uid = match self.find(kind, namespace, name) {
            Some(o) => o.uid,
            None => nth_uid(self.next_uid + 1),
        };
        upsert_ok(
            self.objects,
            stamped(kind, namespace, name, uid, self.resource_version + 1, object),
        );
    }
}

/// The kinds held are the kinds of the objects, each once and in order.
pub proof fn held_kinds_sorted(objects: Seq<ObjectV>)
    requires
        objects_sorted(objects),
    ensures
        forall|i: int, j: int|
            0 <= i < j < held_kinds(objects).len() ==> text_lt(
                #[trigger] held_kinds(objects)[i],
                #[trigger] held_kinds(objects)[j],
            ),
        forall|i: int|
            0 <= i < objects.len() ==> held_kinds(objects).contains(
                (#[trigger] objects[i]).kind,
            ),
        forall|k: Seq<char>|
            held_kinds(objects).contains(k) ==> exists|i: int|
                0 <= i < objects.len() && (#[trigger] objects[i]).kind == k,
        objects.len() > 0 ==> held_kinds(objects).len() > 0 && held_kinds(objects).last()
            == objects.last().kind,
    decreases objects.len(),
{
    if objects.len() > 0 {
        let d = objects.drop_last();
        let h = held_kinds(d);
        let k = objects.last().kind;
        let all = held_kinds(objects);
        assert(forall|i: int| 0 <= i < d.len() ==> d[i] == objects[i]);
        assert(objects_sorted(d));
        held_kinds_sorted(d);
        if d.len() > 0 {
            assert(key_lt(key_of(objects[d.len() - 1]), key_of(objects[objects.len() - 1])));
            assert(h.last() == d.last().kind);
            assert(d.last() == objects[d.len() - 1]);
        }
        if h.len() > 0 && h.last() == k {
            assert forall|i: int| 0 <= i < objects.len() implies all.contains(
                (#[trigger] objects[i]).kind,
            ) by {
                if i < d.len() {
                    assert(d[i] == objects[i]);
                } else {
                    assert(all[all.len() - 1] == k);
                }
            }
            assert forall|q: Seq<char>| all.contains(q) implies exists|i: int|
                0 <= i < objects.len() && (#[trigger] objects[i]).kind == q by {
                let i = choose|i: int| 0 <= i < d.len() && (#[trigger] d[i]).kind == q;
                assert(objects[i].kind == q);
            }
        } else {
            assert forall|i: int, j: int| 0 <= i < j < all.len() implies text_lt(
                #[trigger] all[i],
                #[trigger] all[j],
            ) by {
                if j < h.len() {
                    assert(all[i] == h[i] && all[j] == h[j]);
                } else {
                    assert(all[i] == h[i] && all[j] == k);
                    assert(text_lt(h.last(), k));
                    if i < h.len() - 1 {
                        assert(text_lt(h[i], h[h.len() - 1]));
                        text_lt_transitive(h[i], h.last(), k);
                    }
                }
            }
            assert forall|i: int| 0 <= i < objects.len() implies all.contains(
                (#[trigger] objects[i]).kind,
            ) by {
                if i < d.len() {
                    assert(d[i] == objects[i]);
                    let j = choose|j: int| 0 <= j < h.len() && h[j] == d[i].kind;
                    assert(all[j] == h[j]);
                } else {
                    assert(all[h.len() as int] == k);
                }
            }
            assert forall|q: Seq<char>| all.contains(q) implies exists|i: int|
                0 <= i < objects.len() && (#[trigger] objects[i]).kind == q by {
                let j = choose|j: int| 0 <= j < all.len() && all[j] == q;
                if j < h.len() {
                    assert(h[j] == q);
                    assert(h.contains(q));
                    let i = choose|i: int| 0 <= i < d.len() && (#[trigger] d[i]).kind == q;
                    assert(objects[i].kind == q);
                } else {
                    assert(objects[objects.len() - 1].kind == q);
                }
            }
        }
    }
}

/// The objects of a kind are listed in the order of namespace and name.
pub proof fn listed_in_order(objects: Seq<ObjectV>, kind: Seq<char>)
    requires
        objects_sorted(objects),
    ensures
        objects_sorted(of_kind(objects, kind)),
        forall|i: int|
            0 <= i < of_kind(objects, kind).len() ==> (#[trigger] of_kind(objects, kind)[i]).kind
                == kind && objects.contains(of_kind(objects, kind)[i]),
        forall|i: int|
            0 <= i < objects.len() && (#[trigger] objects[i]).kind == kind ==> of_kind(
                objects,
                kind,
            ).contains(objects[i]),
    decreases objects.len(),
{
    reveal(Seq::filter);
    let l = of_kind(objects, kind);
    if objects.len() > 0 {
        let d = objects.drop_last();
        let ld = of_kind(d, kind);
        assert(forall|i: int| 0 <= i < d.len() ==> d[i] == objects[i]);
        listed_in_order(d, kind);
        assert forall|i: int, j: int| 0 <= i < j < l.len() implies key_lt(
            key_of(#[trigger] l[i]),
            key_of(#[trigger] l[j]),
        ) by {
            if j < ld.len() {
                assert(l[i] == ld[i] && l[j] == ld[j]);
            } else {
                assert(l[i] == ld[i] && l[j] == objects.last());
                let m = choose|m: int| 0 <= m < d.len() && d[m] == ld[i];
                assert(objects[m] == ld[i]);
            }
        }
        assert forall|i: int| 0 <= i < l.len() implies (#[trigger] l[i]).kind == kind
            && objects.contains(l[i]) by {
            if i < ld.len() {
                assert(l[i] == ld[i]);
                let m = choose|m: int| 0 <= m < d.len() && d[m] == ld[i];
                assert(objects[m] == l[i]);
            } else {
                assert(objects[objects.len() - 1] == l[i]);
            }
        }
        assert forall|i: int|
            0 <= i < objects.len() && (#[trigger] objects[i]).kind == kind implies l.contains(
            objects[i],
        ) by {
            if i < d.len() {
                assert(d[i] == objects[i]);
                let m = choose|m: int| 0 <= m < ld.len() && ld[m] == d[i];
                assert(l[m] == objects[i]);
            } else {
                assert(l[l.len() - 1] == objects[i]);
            }
        }
    }
}

impl StoreV {
    /// A created object is found under its key: it holds what was given, except for the
    /// bookkeeping, and has a `uid` that no object had. Every other key finds what it
    /// found before.
    pub proof fn create_then_get(
        self,
        kind: Seq<char>,
        namespace: Seq<char>,
        name: Seq<char>,
        object: JsonV,
    )
        requires
            self.ok(),
            self.find(kind, namespace, name) is None,
        ensures
            ({
                let t = self.created(kind, namespace, name, object);
                let o = t.find(kind, namespace, name);
                &&& o is Some
                &&& key_of(o->0) == (kind, namespace, name)
                &&& holds_given(o->0, object)
                &&& in_sync(o->0)
                &&& forall|i: int|
                    0 <= i < self.objects.len() ==> (#[trigger] self.objects[i]).uid != o->0.uid
                &&& forall|k: Seq<char>, ns: Seq<char>, n: Seq<char>|
                    (k, ns, n) != (kind, namespace, name) ==> #[trigger] t.find(k, ns, n)
                        == self.find(k, ns, n)
            }),
    {
        let uid = nth_uid(self.next_uid + 1);
        let version = self.resource_version + 1;
        self.applied_finds(kind, namespace, name, object);
        stamped_in_sync(kind, namespace, name, uid, version, object);
        stamped_holds(kind, namespace, name, uid, version, object);
        assert forall|i: int| 0 <= i < self.objects.len() implies (#[trigger] self.objects[i]).uid
            != nth_uid(self.next_uid + 1) by {
            assert(object_ok(self.objects[i], self));
            let n = choose|n: nat|
                1 <= n <= self.next_uid && #[trigger] has_uid(self.objects[i], n);
            if nth_uid(n) == nth_uid(self.next_uid + 1) {
                uid_injective(n, self.next_uid + 1);
            }
        }
    }

    /// A replaced object is found under its key: it holds what was given, except for
    /// the bookkeeping, keeps its `uid`, and has a resource version above that of every
    /// object. Every other key finds what it found before.
    pub proof fn replace_then_get(
        self,
        kind: Seq<char>,
        namespace: Seq<char>,
        name: Seq<char>,
        object: JsonV,
    )
        requires
            self.ok(),
            self.find(kind, namespace, name) is Some,
        ensures
            ({
                let t = self.replaced(kind, namespace, name, object);
                let o = t.find(kind, namespace, name);
                &&& o is Some
                &&& key_of(o->0) == (kind, namespace, name)
                &&& holds_given(o->0, object)
                &&& in_sync(o->0)
                &&& o->0.uid == self.find(kind, namespace, name)->0.uid
                &&& forall|i: int|
                    0 <= i < self.objects.len() ==> (#[trigger] self.objects[i]).resource_version
                        < o->0.resource_version
                &&& forall|k: Seq<char>, ns: Seq<char>, n: Seq<char>|
                    (k, ns, n) != (kind, namespace, name) ==> #[trigger] t.find(k, ns, n)
                        == self.find(k, ns, n)
            }),
    {
        let uid = self.find(kind, namespace, name)->0.uid;
        let version = self.resource_version + 1;
        self.applied_finds(kind, namespace, name, object);
        stamped_in_sync(kind, namespace, name, uid, version, object);
        stamped_holds(kind, namespace, name, uid, version, object);
        assert forall|i: int| 0 <= i < self.objects.len() implies (
        #[trigger] self.objects[i]).resource_version < self.resource_version + 1 by {
            assert(object_ok(self.objects[i], self));
        }
    }

    /// The events tell all: each change of the objects adds one event, and whoever
    /// makes of its objects what the event says has the objects of the store.
    pub proof fn events_tell_all(
        self,
        kind: Seq<char>,
        namespace: Seq<char>,
        name: Seq<char>,
        object: JsonV,
    )
        requires
            self.ok(),
        ensures
            self.find(kind, namespace, name) is None ==> told_by(
                self,
                self.created(kind, namespace, name, object),
            ),
            self.find(kind, namespace, name) is Some ==> told_by(
                self,
                self.replaced(kind, namespace, name, object),
            ) && told_by(self, self.patched(kind, namespace, name, object)) && told_by(
                self,
                self.deleted(kind, namespace, name),
            ),
            told_by(self, self.applied(kind, namespace, name, object)),
    {
        find_object_index(self.objects, (kind, namespace, name));
        assert(forall|e: EventV| #[trigger] self.events.push(e).drop_last() =~= self.events);
        if self.find(kind, namespace, name) is Some {
            assert(told_by(self, self.replaced(kind, namespace, name, object)));
            assert(told_by(self, self.patched(kind, namespace, name, object)));
            assert(told_by(self, self.deleted(kind, namespace, name)));
        }
    }

    /// A deleted object is not found, and every other one still is.
    pub proof fn delete_then_get(
        self,
        kind: Seq<char>,
        namespace: Seq<char>,
        name: Seq<char>,
        k: Seq<char>,
        ns: Seq<char>,
        n: Seq<char>,
    )
        requires
            self.ok(),
        ensures
            self.deleted(kind, namespace, name).find(k, ns, n) == if (k, ns, n) == (
                kind,
                namespace,
                name,
            ) {
                None
            } else {
                self.find(k, ns, n)
            },
    {
        without_object_ok(self.objects, (kind, namespace, name));
    }

    /// A patched object holds, at every key that the bookkeeping does not write,
    /// what the merge of the old object and the patch holds there.
    pub proof fn patch_then_get(
        self,
        kind: Seq<char>,
        namespace: Seq<char>,
        name: Seq<char>,
        patch: JsonV,
        key: Seq<char>,
    )
        requires
            self.ok(),
            self.find(kind, namespace, name) is Some,
            key != "kind"@ && key != "apiVersion"@ && key != "metadata"@,
        ensures
            get(self.patched(kind, namespace, name, patch).find(kind, namespace, name)->0.object, key)
                == get(
                table_or_empty(merge(self.find(kind, namespace, name)->0.object, patch)),
                key,
            ),
    {
        let o = self.find(kind, namespace, name)->0;
        let m = merge(o.object, patch);
        self.applied_finds(kind, namespace, name, m);
        stamped_keeps(kind, namespace, name, o.uid, self.resource_version + 1, m, key);
    }
}

/// Whether an object holds what was given for it: the same at every key that the
/// bookkeeping does not write.
pub open spec fn holds_given(o: ObjectV, given: JsonV) -> bool {
    forall|key: Seq<char>|
        key != "kind"@ && key != "apiVersion"@ && key != "metadata"@ ==> #[trigger] get(
            o.object,
            key,
        ) == get(table_or_empty(given), key)
}

/// The objects after an event.
pub open spec fn after_event(objects: Seq<ObjectV>, event: EventV) -> Seq<ObjectV> {
    match event {
        EventV::Added(o) => upsert(objects, o),
        EventV::Modified(o) => upsert(objects, o),
        EventV::Deleted(o) => without_object(objects, key_of(o)),
    }
}

/// Whether one more event tells what makes one store of another.
pub open spec fn told_by(s: StoreV, t: StoreV) -> bool {
    &&& t.events.len() == s.events.len() + 1
    &&& t.events.drop_last() == s.events
    &&& t.objects == after_event(s.objects, t.events.last())
}

/// A stamped object holds what was given for it.
pub proof fn stamped_holds(
    kind: Seq<char>,
    namespace: Seq<char>,
    name: Seq<char>,
    uid: Seq<char>,
    resource_version: nat,
    object: JsonV,
)
    ensures
        holds_given(stamped(kind, namespace, name, uid, resource_version, object), object),
{
    let o = stamped(kind, namespace, name, uid, resource_version, object);
    assert forall|key: Seq<char>|
        key != "kind"@ && key != "apiVersion"@ && key != "metadata"@ implies #[trigger] get(
        o.object,
        key,
    ) == get(table_or_empty(object), key) by {
        stamped_keeps(kind, namespace, name, uid, resource_version, object, key);
    }
}

/// Stamping changes no key but `kind`, `apiVersion` and `metadata`.
pub proof fn stamped_keeps(
    kind: Seq<char>,
    namespace: Seq<char>,
    name: Seq<char>,
    uid: Seq<char>,
    resource_version: nat,
    object: JsonV,
    key: Seq<char>,
)
    requires
        key != "kind"@ && key != "apiVersion"@ && key != "metadata"@,
    ensures
        get(stamped(kind, namespace, name, uid, resource_version, object).object, key) == get(
            table_or_empty(object),
            key,
        ),
{
    let base = table_or_empty(object);
    let t1 = with_key(base, "kind"@, JsonV::Text(kind));
    let t2 = with_key(t1, "apiVersion"@, JsonV::Text("tilt.dev/v1alpha1"@));
    let m = stamped_metadata(at(t2, "metadata"@), namespace, name, uid, resource_version);
    at_with_key(base, "kind"@, JsonV::Text(kind), key);
    at_with_key(t1, "apiVersion"@, JsonV::Text("tilt.dev/v1alpha1"@), key);
    at_with_key(t2, "metadata"@, m, key);
}

} // verus!
