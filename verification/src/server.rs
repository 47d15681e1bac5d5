//! The API server: what its routes answer.

use vstd::prelude::*;
use vstd::string::*;

use crate::api::schema::{
    all_kinds, known_kinds, openapi, openapi_document, schema_of_spec, spec_schema, strs,
    API_VERSION,
};
use crate::api::store::{
    nth_uid, objects_view, of_kind, held_kinds, stamped, ApiObjectStore, EventV, ObjectEvent,
    ObjectV,
};
use crate::api::v1alpha1::UIButton;
use crate::cli::objects::{resolve_kind, resolved_kind};
use crate::engine::log::{line, log_v, Level, LogLine};
use crate::json::{
    at, empty_table, list_view, list_view_push, text_list, text_or, with_key, Json, JsonV,
};
use crate::text::{
    begins, cat, cat3, debug_text, debugged, lowercase, lowered, opt_text, owned, pairs, precedes,
    same, starts_with, text_lt, texts,
};

verus! {

/// What is answered: a status, and JSON, text or nothing.
#[derive(Debug, PartialEq)]
pub enum Body {
    Json(Json),
    Text(String),
    Nothing,
}

/// The body of an answer as a mathematical object.
pub enum BodyV {
    Json(JsonV),
    Text(Seq<char>),
    Nothing,
}

/// What is answered to a request.
#[derive(Debug, PartialEq)]
pub struct ApiReply {
    pub status: u16,
    pub body: Body,
}

/// What is answered to a request, as a mathematical object.
pub struct ReplyV {
    pub status: u16,
    pub body: BodyV,
}

impl View for ApiReply {
    type V = ReplyV;

    open spec fn view(&self) -> ReplyV {
        ReplyV {
            status: self.status,
            body: match self.body {
                Body::Json(j) => BodyV::Json(j@),
                Body::Text(s) => BodyV::Text(s@),
                Body::Nothing => BodyV::Nothing,
            },
        }
    }
}

/// An answer of JSON.
pub open spec fn json_reply(status: u16, j: JsonV) -> ReplyV {
    ReplyV { status, body: BodyV::Json(j) }
}

/// An answer of text.
pub open spec fn text_reply(status: u16, s: Seq<char>) -> ReplyV {
    ReplyV { status, body: BodyV::Text(s) }
}

/// An answer of a status alone.
pub open spec fn bare_reply(status: u16) -> ReplyV {
    ReplyV { status, body: BodyV::Nothing }
}

fn with_json(status: u16, j: Json) -> (r: ApiReply)
    ensures
        r@ == json_reply(status, j@),
{
    ApiReply { status, body: Body::Json(j) }
}

fn with_text(status: u16, s: String) -> (r: ApiReply)
    ensures
        r@ == text_reply(status, s@),
{
    ApiReply { status, body: Body::Text(s) }
}

fn bare(status: u16) -> (r: ApiReply)
    ensures
        r@ == bare_reply(status),
{
    ApiReply { status, body: Body::Nothing }
}

/// The list of the objects of a kind.
pub open spec fn object_list(kind: Seq<char>, objects: Seq<ObjectV>) -> JsonV {
    let t = with_key(empty_table(), "apiVersion"@, JsonV::Text(API_VERSION@));
    let t = with_key(t, "kind"@, JsonV::Text(kind + "List"@));
    let t = with_key(t, "metadata"@, empty_table());
    with_key(t, "items"@, JsonV::List(objects.map_values(|o: ObjectV| o.object)))
}

/// Lists the objects of a kind.
pub fn list_objects(store: &ApiObjectStore, kind: &str) -> (r: ApiReply)
    ensures
        r@ == json_reply(200, object_list(kind@, of_kind(store@.objects, kind@))),
{
    let objects = store.list(kind);
    let ghost all = objects_view(objects@).map_values(|o: ObjectV| o.object);
    let mut items: Vec<Json> = Vec::new();
    let mut i: usize = 0;
    assert(list_view(items@) =~= all.take(0));
    while i < objects.len()
        invariant
            i <= objects@.len(),
            all == objects_view(objects@).map_values(|o: ObjectV| o.object),
            list_view(items@) == all.take(i as int),
        decreases objects@.len() - i,
    {
        let j = objects[i].object.clone();
        proof {
            list_view_push(items@, j);
            assert(all[i as int] == objects@[i as int].object@);
            assert(all.take(i + 1) =~= all.take(i as int).push(j@));
        }
        items.push(j);
        i += 1;
    }
    assert(all.take(i as int) =~= all);
    let t = Json::table().with("apiVersion", Json::text(API_VERSION)).with(
        "kind",
        Json::text(cat(kind, "List").as_str()),
    ).with("metadata", Json::table()).with("items", Json::List(items));
    with_json(200, t)
}

/// What is said of an object that is not there.
pub open spec fn missing(kind: Seq<char>, name: Seq<char>) -> ReplyV {
    text_reply(404, kind + " \""@ + name + "\" not found\n"@)
}

fn not_there(kind: &str, name: &str) -> (r: ApiReply)
    ensures
        r@ == missing(kind@, name@),
{
    let mut s = cat3(kind, " \"", name);
    s.append("\" not found\n");
    with_text(404, s)
}

/// Gets an object.
pub fn get_object(store: &ApiObjectStore, kind: &str, name: &str) -> (r: ApiReply)
    ensures
        r@ == (match store@.find(kind@, "default"@, name@) {
            Some(o) => json_reply(200, o.object),
            None => missing(kind@, name@),
        }),
{
    match store.get(kind, "default", name) {
        Some(o) => with_json(200, o.object),
        None => not_there(kind, name),
    }
}

/// Lists the kinds of which there are objects.
pub fn list_kinds(store: &ApiObjectStore) -> (r: ApiReply)
    ensures
        r@ == json_reply(
            200,
            with_key(empty_table(), "kinds"@, text_list(held_kinds(store@.objects))),
        ),
{
    with_json(200, Json::table().with("kinds", Json::text_list(&store.kinds())))
}

/// Creates an object that is named in its metadata. One without a name is refused, and
/// so is one whose name is taken.
pub fn create_object(store: &mut ApiObjectStore, kind: &str, body: Json) -> (r: ApiReply)
    requires
        old(store)@.ok(),
        old(store)@.room(1),
    ensures
        final(store)@.ok(),
        ({
            let name = text_or(at(at(body@, "metadata"@), "name"@), Seq::empty());
            if name.len() == 0 {
                &&& r@ == text_reply(400, "metadata.name is required\n"@)
                &&& final(store)@ == old(store)@
            } else if old(store)@.find(kind@, "default"@, name) is Some {
                &&& r@ == text_reply(409, kind@ + " \""@ + name + "\" already exists\n"@)
                &&& final(store)@ == old(store)@
            } else {
                &&& r@ == json_reply(
                    201,
                    stamped(
                        kind@,
                        "default"@,
                        name,
                        nth_uid(old(store)@.next_uid + 1),
                        old(store)@.resource_version + 1,
                        body@,
                    ).object,
                )
                &&& final(store)@ == old(store)@.created(kind@, "default"@, name, body@)
            }
        }),
{
    proof {
        reveal_strlit("");
        assert(""@ =~= Seq::empty());
    }
    let name = owned(body.at("metadata").at("name").str_or(""));
    if name.as_str().is_empty() {
        return with_text(400, owned("metadata.name is required\n"));
    }
    match store.create(kind, "default", name.as_str(), body) {
        Ok(o) => with_json(201, o.object),
        Err(e) => {
            let mut s = e.message();
            s.append("\n");
            assert(e.text() == kind@ + " \""@ + name@ + "\" already exists"@);
            proof {
                reveal_strlit("\" already exists");
                reveal_strlit("\" already exists\n");
                reveal_strlit("\n");
                assert(kind@ + " \""@ + name@ + "\" already exists"@ + "\n"@ =~= kind@ + " \""@
                    + name@ + "\" already exists\n"@);
            }
            with_text(409, s)
        },
    }
}

/// Deletes an object; the answer is the object.
pub fn delete_object(store: &mut ApiObjectStore, kind: &str, name: &str) -> (r: ApiReply)
    requires
        old(store)@.ok(),
        old(store)@.room(1),
    ensures
        final(store)@.ok(),
        final(store)@ == old(store)@.deleted(kind@, "default"@, name@),
        r@ == (match old(store)@.find(kind@, "default"@, name@) {
            Some(o) => json_reply(200, o.object),
            None => missing(kind@, name@),
        }),
{
    match store.delete(kind, "default", name) {
        Some(o) => with_json(200, o.object),
        None => not_there(kind, name),
    }
}

/// Replaces an object that is there.
pub fn replace_object(store: &mut ApiObjectStore, kind: &str, name: &str, body: Json) -> (r: ApiReply)
    requires
        old(store)@.ok(),
        old(store)@.room(1),
    ensures
        final(store)@.ok(),
        match old(store)@.find(kind@, "default"@, name@) {
            Some(o) => {
                &&& final(store)@ == old(store)@.replaced(kind@, "default"@, name@, body@)
                &&& r@ == json_reply(
                    200,
                    stamped(
                        kind@,
                        "default"@,
                        name@,
                        o.uid,
                        old(store)@.resource_version + 1,
                        body@,
                    ).object,
                )
            },
            None => final(store)@ == old(store)@ && r@ == missing(kind@, name@),
        },
{
    match store.replace(kind, "default", name, body) {
        Ok(o) => with_json(200, o.object),
        Err(_) => not_there(kind, name),
    }
}

/// Merges a patch into an object that is there.
pub fn patch_object(store: &mut ApiObjectStore, kind: &str, name: &str, body: Json) -> (r: ApiReply)
    requires
        old(store)@.ok(),
        old(store)@.room(1),
    ensures
        final(store)@.ok(),
        final(store)@ == old(store)@.patched(kind@, "default"@, name@, body@),
        match old(store)@.find(kind@, "default"@, name@) {
            Some(_) => final(store)@.find(kind@, "default"@, name@) is Some && r@ == json_reply(
                200,
                final(store)@.find(kind@, "default"@, name@)->0.object,
            ),
            None => r@ == missing(kind@, name@),
        },
{
    match store.patch(kind, "default", name, body) {
        Ok(o) => with_json(200, o.object),
        Err(_) => not_there(kind, name),
    }
}

/// The controllers that an object can be reconciled by on demand.
#[derive(Debug, Clone, Copy, PartialEq, Eq, Structural)]
pub enum Controller {
    Apply,
    Discovery,
    PodWatch,
    PodLogStream,
    Compose,
    PortForward,
    LiveUpdate,
}

/// The controller of a kind, in upper or lower case.
pub open spec fn controller_for(kind: Seq<char>) -> Option<Controller> {
    let k = lowercase(kind);
    if k == "kubernetesapply"@ {
        Some(Controller::Apply)
    } else if k == "kubernetesdiscovery"@ {
        Some(Controller::Discovery)
    } else if k == "podwatch"@ {
        Some(Controller::PodWatch)
    } else if k == "podlogstream"@ {
        Some(Controller::PodLogStream)
    } else if k == "dockercomposeservice"@ {
        Some(Controller::Compose)
    } else if k == "portforward"@ {
        Some(Controller::PortForward)
    } else if k == "liveupdate"@ {
        Some(Controller::LiveUpdate)
    } else {
        None
    }
}

/// The controller of a kind, or the answer where it has none.
pub fn controller_of(kind: &str) -> (r: Result<Controller, ApiReply>)
    ensures
        match controller_for(kind@) {
            Some(c) => r is Ok && r->Ok_0 == c,
            None => r is Err && r->Err_0@ == text_reply(
                400,
                "reconcile is supported for KubernetesApply/KubernetesDiscovery/PodWatch/PodLogStream/PortForward/LiveUpdate/DockerComposeService, not "@
                    + kind@ + "\n"@,
            ),
        },
{
    let k = lowered(kind);
    let k = k.as_str();
    if same(k, "kubernetesapply") {
        Ok(Controller::Apply)
    } else if same(k, "kubernetesdiscovery") {
        Ok(Controller::Discovery)
    } else if same(k, "podwatch") {
        Ok(Controller::PodWatch)
    } else if same(k, "podlogstream") {
        Ok(Controller::PodLogStream)
    } else if same(k, "dockercomposeservice") {
        Ok(Controller::Compose)
    } else if same(k, "portforward") {
        Ok(Controller::PortForward)
    } else if same(k, "liveupdate") {
        Ok(Controller::LiveUpdate)
    } else {
        Err(
            with_text(
                400,
                cat3(
                    "reconcile is supported for KubernetesApply/KubernetesDiscovery/PodWatch/PodLogStream/PortForward/LiveUpdate/DockerComposeService, not ",
                    kind,
                    "\n",
                ),
            ),
        )
    }
}

/// The kind under which an object that was reconciled is looked up.
pub open spec fn lookup_kind(kind: Seq<char>) -> Seq<char> {
    let k = if lowercase(kind) == "podwatch"@ {
        "KubernetesDiscovery"@
    } else {
        kind
    };
    match resolved_kind(all_kinds(), k) {
        Some(name) => name,
        None => k,
    }
}

/// What is answered once an object was reconciled: the object as it is now, or what
/// went wrong.
pub fn reconciled(
    store: &ApiObjectStore,
    kind: &str,
    name: &str,
    outcome: &Result<(), String>,
) -> (r: ApiReply)
    ensures
        match *outcome {
            Ok(_) => r@ == json_reply(
                200,
                match store@.find(lookup_kind(kind@), "default"@, name@) {
                    Some(o) => o.object,
                    None => empty_table(),
                },
            ),
            Err(e) => r@ == text_reply(500, e@ + "\n"@),
        },
{
    match outcome {
        Err(e) => with_text(500, cat(e.as_str(), "\n")),
        Ok(_) => {
            let k = if same(lowered(kind).as_str(), "podwatch") {
                "KubernetesDiscovery"
            } else {
                kind
            };
            let resolved = match resolve_kind(k) {
                Some(name) => owned(name),
                None => owned(k),
            };
            match store.get(resolved.as_str(), "default", name) {
                Some(o) => with_json(200, o.object),
                None => with_json(200, Json::table()),
            }
        },
    }
}

/// An event as it is streamed to watchers.
pub open spec fn event_json(e: EventV) -> JsonV {
    let (typ, object) = match e {
        EventV::Added(o) => ("ADDED"@, o.object),
        EventV::Modified(o) => ("MODIFIED"@, o.object),
        EventV::Deleted(o) => ("DELETED"@, o.object),
    };
    with_key(with_key(empty_table(), "type"@, JsonV::Text(typ)), "object"@, object)
}

/// An event as it is streamed to watchers.
pub fn watch_event(event: &ObjectEvent) -> (r: Json)
    ensures
        r@ == event_json(event@),
{
    let (typ, object) = match event {
        ObjectEvent::Added(o) => ("ADDED", o.object.clone()),
        ObjectEvent::Modified(o) => ("MODIFIED", o.object.clone()),
        ObjectEvent::Deleted(o) => ("DELETED", o.object.clone()),
    };
    Json::table().with("type", Json::text(typ)).with("object", object)
}

/// What can be done with objects.
pub open spec fn all_verbs() -> Seq<Seq<char>> {
    seq!["get"@, "list"@, "watch"@, "create"@, "update"@, "patch"@, "delete"@]
}

/// A kind as clients discover it.
pub open spec fn resource_entry(kind: Seq<char>) -> JsonV {
    let t = with_key(empty_table(), "name"@, JsonV::Text(lowercase(kind) + "s"@));
    let t = with_key(t, "singularName"@, JsonV::Text(lowercase(kind)));
    let t = with_key(t, "kind"@, JsonV::Text(kind));
    let t = with_key(t, "namespaced"@, JsonV::Bool(false));
    with_key(t, "verbs"@, text_list(all_verbs()))
}

/// The kinds as clients discover them.
pub open spec fn resource_list() -> JsonV {
    let t = with_key(empty_table(), "kind"@, JsonV::Text("APIResourceList"@));
    let t = with_key(t, "apiVersion"@, JsonV::Text("v1"@));
    let t = with_key(t, "groupVersion"@, JsonV::Text(API_VERSION@));
    with_key(
        t,
        "resources"@,
        JsonV::List(all_kinds().map_values(|k: Seq<char>| resource_entry(k))),
    )
}

fn verbs() -> (r: Json)
    ensures
        r@ == text_list(all_verbs()),
{
    let mut v: Vec<String> = Vec::new();
    v.push(owned("get"));
    v.push(owned("list"));
    v.push(owned("watch"));
    v.push(owned("create"));
    v.push(owned("update"));
    v.push(owned("patch"));
    v.push(owned("delete"));
    assert(texts(v@) =~= all_verbs());
    Json::text_list(&v)
}

/// The kinds as clients discover them.
pub fn api_resource_list() -> (r: ApiReply)
    ensures
        r@ == json_reply(200, resource_list()),
{
    let kinds = known_kinds();
    let ghost all = strs(kinds@).map_values(|k: Seq<char>| resource_entry(k));
    let mut items: Vec<Json> = Vec::new();
    let mut i: usize = 0;
    assert(list_view(items@) =~= all.take(0));
    while i < kinds.len()
        invariant
            i <= kinds@.len(),
            all == strs(kinds@).map_values(|k: Seq<char>| resource_entry(k)),
            list_view(items@) == all.take(i as int),
        decreases kinds@.len() - i,
    {
        let lower = lowered(kinds[i]);
        let j = Json::table().with("name", Json::text(cat(lower.as_str(), "s").as_str())).with(
            "singularName",
            Json::text(lower.as_str()),
        ).with("kind", Json::text(kinds[i])).with("namespaced", Json::Bool(false)).with(
            "verbs",
            verbs(),
        );
        proof {
            list_view_push(items@, j);
            assert(strs(kinds@)[i as int] == kinds@[i as int]@);
            assert(all[i as int] == j@);
            assert(all.take(i + 1) =~= all.take(i as int).push(j@));
        }
        items.push(j);
        i += 1;
    }
    assert(all.take(i as int) =~= all);
    let t = Json::table().with("kind", Json::text("APIResourceList")).with(
        "apiVersion",
        Json::text("v1"),
    ).with("groupVersion", Json::text(API_VERSION)).with("resources", Json::List(items));
    with_json(200, t)
}

/// The OpenAPI document of the API.
pub fn openapi_json() -> (r: ApiReply)
    ensures
        r@ == json_reply(200, openapi()),
{
    with_json(200, openapi_document())
}

/// A schema of a type alone.
pub open spec fn type_schema(t: Seq<char>) -> JsonV {
    with_key(empty_table(), "type"@, JsonV::Text(t))
}

/// The schema of the objects of a kind.
pub open spec fn kind_schema(kind: Seq<char>) -> JsonV {
    let p = with_key(empty_table(), "apiVersion"@, type_schema("string"@));
    let p = with_key(p, "kind"@, type_schema("string"@));
    let p = with_key(p, "metadata"@, type_schema("object"@));
    let p = with_key(p, "spec"@, schema_of_spec(kind));
    let s = with_key(type_schema("object"@), "properties"@, p);
    let t = with_key(empty_table(), "kind"@, JsonV::Text(kind));
    let t = with_key(t, "apiVersion"@, JsonV::Text(API_VERSION@));
    with_key(t, "schema"@, s)
}

fn schema_of_type(t: &str) -> (r: Json)
    ensures
        r@ == type_schema(t@),
{
    Json::table().with("type", Json::text(t))
}

/// The schema of the objects of a kind, in upper or lower case.
pub fn object_schema(kind: &str) -> (r: ApiReply)
    ensures
        r@ == (match resolved_kind(all_kinds(), kind@) {
            Some(k) => json_reply(200, kind_schema(k)),
            None => text_reply(404, "unknown kind "@ + debugged(kind@) + "\n"@),
        }),
{
    match resolve_kind(kind) {
        None => with_text(404, cat3("unknown kind ", debug_text(kind).as_str(), "\n")),
        Some(k) => {
            let p = Json::table().with("apiVersion", schema_of_type("string")).with(
                "kind",
                schema_of_type("string"),
            ).with("metadata", schema_of_type("object")).with("spec", spec_schema(k));
            let s = schema_of_type("object").with("properties", p);
            let t = Json::table().with("kind", Json::text(k)).with(
                "apiVersion",
                Json::text(API_VERSION),
            ).with("schema", s);
            with_json(200, t)
        },
    }
}

/// The value of an annotation.
pub open spec fn annotation(a: Seq<(Seq<char>, Seq<char>)>, key: Seq<char>) -> Option<Seq<char>>
    decreases a.len(),
{
    if a.len() == 0 {
        None
    } else if a[0].0 == key {
        Some(a[0].1)
    } else {
        annotation(a.drop_first(), key)
    }
}

/// The resource that a click on a button switches on or off.
pub open spec fn toggled_by(b: UIButton) -> Option<Seq<char>> {
    let kind = match b.metadata {
        Some(m) => match m.annotations {
            Some(a) => annotation(pairs(a@), "tilt.dev/uibutton-type"@),
            None => None,
        },
        None => None,
    };
    match b.spec {
        Some(s) => if kind == Some("DisableToggle"@) && s.location.component_id@.len() > 0 {
            Some(s.location.component_id@)
        } else {
            None
        },
        None => None,
    }
}

fn find_annotation<'a>(a: &'a Vec<(String, String)>, key: &str) -> (r: Option<&'a str>)
    ensures
        match r {
            Some(v) => annotation(pairs(a@), key@) == Some(v@),
            None => annotation(pairs(a@), key@) is None,
        },
{
    let ghost all = pairs(a@);
    let mut i: usize = 0;
    assert(all.skip(0) =~= all);
    while i < a.len()
        invariant
            i <= a@.len(),
            all == pairs(a@),
            annotation(all, key@) == annotation(all.skip(i as int), key@),
        decreases a@.len() - i,
    {
        assert(all.skip(i as int)[0] == (a@[i as int].0@, a@[i as int].1@));
        assert(all.skip(i as int).drop_first() =~= all.skip(i + 1));
        if same(a[i].0.as_str(), key) {
            return Some(a[i].1.as_str());
        }
        i += 1;
    }
    None
}

/// The resource that a click on a button switches on or off.
pub fn button_target(b: &UIButton) -> (r: Option<String>)
    ensures
        opt_text(r) == toggled_by(*b),
{
    let kind = match &b.metadata {
        Some(m) => match &m.annotations {
            Some(a) => find_annotation(a, "tilt.dev/uibutton-type"),
            None => None,
        },
        None => None,
    };
    let toggle = match kind {
        Some(k) => same(k, "DisableToggle"),
        None => false,
    };
    match &b.spec {
        Some(s) => if toggle && !s.location.component_id.as_str().is_empty() {
            Some(s.location.component_id.clone())
        } else {
            None
        },
        None => None,
    }
}

/// What a click does to a resource that is switched off or not: the new state, and
/// what is logged.
pub fn toggle_resource(resource: &str, disabled: bool) -> (r: (bool, LogLine))
    ensures
        r.0 == !disabled,
        r.1@ == log_v(
            resource@,
            Level::Info,
            if disabled {
                "Enabled via web UI\n"@
            } else {
                "Disabled via web UI\n"@
            },
        ),
{
    let text = if disabled {
        owned("Enabled via web UI\n")
    } else {
        owned("Disabled via web UI\n")
    };
    (!disabled, line(resource, Level::Info, text))
}

/// Whether a websocket may be opened: its token is the server's.
pub fn websocket_allowed(given: Option<&str>, token: &str) -> (r: Result<(), ApiReply>)
    ensures
        match r {
            Ok(_) => given is Some && given->0@ == token@,
            Err(e) => !(given is Some && given->0@ == token@) && e@ == text_reply(
                403,
                "bad csrf token"@,
            ),
        },
{
    let ok = match given {
        Some(g) => same(g, token),
        None => false,
    };
    if ok {
        Ok(())
    } else {
        Err(with_text(403, owned("bad csrf token")))
    }
}

/// Why the engine does not take a request.
#[derive(Debug, Clone, Copy, PartialEq, Eq, Structural)]
pub enum TriggerError {
    NotFound,
    EngineGone,
    BadMode,
}

/// The resource that a request to build names, or the answer where it does not name
/// one.
pub fn trigger_name(names: &Vec<String>) -> (r: Result<String, ApiReply>)
    ensures
        match r {
            Ok(n) => names@.len() == 1 && n@ == names@[0]@,
            Err(e) => names@.len() != 1 && e@ == text_reply(
                400,
                "/api/trigger requires exactly one manifest name\n"@,
            ),
        },
{
    if names.len() != 1 {
        return Err(
            with_text(400, owned("/api/trigger requires exactly one manifest name\n")),
        );
    }
    Ok(names[0].clone())
}

/// What is answered to a request to build a resource.
pub fn trigger_reply(name: &str, outcome: &Result<(), TriggerError>) -> (r: ApiReply)
    ensures
        r@ == (match *outcome {
            Ok(_) => bare_reply(200),
            Err(TriggerError::NotFound) => text_reply(
                404,
                "no resource named "@ + debugged(name@) + "\n"@,
            ),
            Err(TriggerError::EngineGone) => text_reply(500, "build engine not running\n"@),
            Err(TriggerError::BadMode) => bare_reply(400),
        }),
{
    match outcome {
        Ok(_) => bare(200),
        Err(TriggerError::NotFound) => with_text(
            404,
            cat3("no resource named ", debug_text(name).as_str(), "\n"),
        ),
        Err(TriggerError::EngineGone) => with_text(500, owned("build engine not running\n")),
        Err(TriggerError::BadMode) => bare(400),
    }
}

/// What is answered to a request to change when resources are built.
pub fn trigger_mode_reply(outcome: &Result<(), TriggerError>) -> (r: ApiReply)
    ensures
        r@ == (match *outcome {
            Ok(_) => bare_reply(200),
            Err(TriggerError::BadMode) => text_reply(400, "invalid trigger mode\n"@),
            Err(TriggerError::NotFound) => text_reply(400, "unknown manifest\n"@),
            Err(TriggerError::EngineGone) => text_reply(500, "build engine not running\n"@),
        }),
{
    match outcome {
        Ok(_) => bare(200),
        Err(TriggerError::BadMode) => with_text(400, owned("invalid trigger mode\n")),
        Err(TriggerError::NotFound) => with_text(400, owned("unknown manifest\n")),
        Err(TriggerError::EngineGone) => with_text(500, owned("build engine not running\n")),
    }
}

/// What is answered to a request to replace the arguments of the config.
pub fn set_args_reply(outcome: &Result<(), TriggerError>) -> (r: ApiReply)
    ensures
        r@ == (match *outcome {
            Err(TriggerError::EngineGone) => text_reply(500, "build engine not running\n"@),
            _ => bare_reply(200),
        }),
{
    match outcome {
        Err(TriggerError::EngineGone) => with_text(500, owned("build engine not running\n")),
        _ => bare(200),
    }
}

/// A line of the log as it is read back.
#[derive(Debug)]
pub struct LogEntry {
    pub span: String,
    pub level: String,
    pub time: String,
    pub text: String,
}

/// A line of the log as JSON.
pub open spec fn entry_json(e: LogEntry) -> JsonV {
    let t = with_key(empty_table(), "span"@, JsonV::Text(e.span@));
    let t = with_key(t, "level"@, JsonV::Text(e.level@));
    let t = with_key(t, "time"@, JsonV::Text(e.time@));
    with_key(t, "text"@, JsonV::Text(e.text@))
}

/// Which lines of the log are asked for: those of a resource, of a level or above it,
/// from a time on, and before another.
#[derive(Debug)]
pub struct LogQuery {
    pub resource: Option<String>,
    pub level: Option<String>,
    pub since: Option<String>,
    pub until: Option<String>,
}

/// How much a level weighs.
pub open spec fn weight(level: Seq<char>) -> nat {
    if level == "ERROR"@ {
        3
    } else if level == "WARN"@ {
        2
    } else if level == "INFO"@ {
        1
    } else {
        0
    }
}

fn weight_of(level: &str) -> (r: u8)
    ensures
        r == weight(level@),
{
    if same(level, "ERROR") {
        3
    } else if same(level, "WARN") {
        2
    } else if same(level, "INFO") {
        1
    } else {
        0
    }
}

/// Whether a line is asked for. The spans of a resource are its name, and those that
/// begin with its name and a colon. Times compare as texts.
pub open spec fn asked_for(e: LogEntry, q: LogQuery) -> bool {
    &&& q.resource matches Some(r) ==> e.span@ == r@ || starts_with(e.span@, r@ + ":"@)
    &&& q.level matches Some(l) ==> weight(e.level@) >= weight(l@)
    &&& q.since matches Some(t) ==> !text_lt(e.time@, t@)
    &&& q.until matches Some(t) ==> text_lt(e.time@, t@)
}

fn is_asked_for(e: &LogEntry, q: &LogQuery) -> (r: bool)
    ensures
        r == asked_for(*e, *q),
{
    if let Some(r) = &q.resource {
        if !same(e.span.as_str(), r.as_str()) && !begins(
            e.span.as_str(),
            cat(r.as_str(), ":").as_str(),
        ) {
            return false;
        }
    }
    if let Some(l) = &q.level {
        if weight_of(e.level.as_str()) < weight_of(l.as_str()) {
            return false;
        }
    }
    if let Some(t) = &q.since {
        if precedes(e.time.as_str(), t.as_str()) {
            return false;
        }
    }
    if let Some(t) = &q.until {
        if !precedes(e.time.as_str(), t.as_str()) {
            return false;
        }
    }
    true
}

/// The lines that are asked for, in order, as JSON.
pub open spec fn entries_json(entries: Seq<LogEntry>, q: LogQuery) -> Seq<JsonV>
    decreases entries.len(),
{
    if entries.len() == 0 {
        Seq::empty()
    } else {
        let rest = entries_json(entries.drop_last(), q);
        if asked_for(entries.last(), q) {
            rest.push(entry_json(entries.last()))
        } else {
            rest
        }
    }
}

/// The lines of the log that are asked for.
pub fn read_logs(entries: &Vec<LogEntry>, q: &LogQuery) -> (r: ApiReply)
    ensures
        r@ == json_reply(
            200,
            with_key(empty_table(), "items"@, JsonV::List(entries_json(entries@, *q))),
        ),
{
    let ghost all = entries@;
    let mut items: Vec<Json> = Vec::new();
    let mut i: usize = 0;
    assert(list_view(items@) =~= entries_json(all.take(0), *q));
    while i < entries.len()
        invariant
            i <= entries@.len(),
            all == entries@,
            list_view(items@) == entries_json(all.take(i as int), *q),
        decreases entries@.len() - i,
    {
        let e = &entries[i];
        proof {
            assert(all.take(i + 1).drop_last() =~= all.take(i as int));
            assert(all.take(i + 1).last() == *e);
        }
        if is_asked_for(e, q) {
            let j = Json::table().with("span", Json::text(e.span.as_str())).with(
                "level",
                Json::text(e.level.as_str()),
            ).with("time", Json::text(e.time.as_str())).with("text", Json::text(e.text.as_str()));
            proof {
                list_view_push(items@, j);
            }
            items.push(j);
        }
        i += 1;
    }
    assert(all.take(i as int) =~= all);
    with_json(200, Json::table().with("items", Json::List(items)))
}

} // verus!
