//! What the server answers and shows, whatever it is asked.

use vstd::prelude::*;
use vstd::string::*;

use crate::api::schema::{
    all_kinds, kind_fields, openapi, properties, schema_of_kind, schema_of_spec, schemas_of,
    type_of_field, typed,
};
use crate::api::store::{EventV, ObjectV};
use crate::api::v1alpha1::{UIButton, UIResource, UIResourceCondition};
use crate::daemon::protocol::ResourceSnapshot;
use crate::engine::status::other_conditions;
use crate::frontend::{condition_of, shows_resource, starts_out, toggles};
use crate::json::{at, empty_table, JsonV};
use crate::json_laws::{empty_has_none, key_set, stays_table};
use crate::manifest::{Manifest, TargetKind};
use crate::server::{
    asked_for, controller_for, entries_json, entry_json, event_json, lookup_kind, object_list,
    toggled_by, weight, Controller, LogEntry, LogQuery,
};
use crate::text::{lower, lowercase, pairs, starts_with, text_lt, text_lt_irreflexive};

verus! {

/// Every field of a kind has its type in the schema, and no other field is in it.
pub proof fn fields_described(fields: Seq<Seq<char>>, field: Seq<char>)
    ensures
        properties(fields) is Table,
        fields.contains(field) ==> at(at(properties(fields), field), "type"@) == JsonV::Text(
            type_of_field(field),
        ),
        !fields.contains(field) ==> at(properties(fields), field) == JsonV::Null,
    decreases fields.len(),
{
    broadcast use {key_set, stays_table, empty_has_none};

    if fields.len() > 0 {
        let d = fields.drop_last();
        fields_described(d, field);
        assert(fields.last() == fields[fields.len() - 1]);
        if fields.contains(field) && field != fields.last() {
            let i = choose|i: int| 0 <= i < fields.len() && fields[i] == field;
            assert(d[i] == field);
        }
        if d.contains(field) {
            let i = choose|i: int| 0 <= i < d.len() && d[i] == field;
            assert(fields[i] == field);
        }
        assert(empty_table() is Table);
        assert(typed(type_of_field(field)) is Table);
    }
}

proof fn kinds_described(kinds: Seq<Seq<char>>, kind: Seq<char>)
    ensures
        schemas_of(kinds) is Table,
        kinds.contains(kind) ==> at(schemas_of(kinds), kind) == schema_of_kind(kind),
        !kinds.contains(kind) ==> at(schemas_of(kinds), kind) == JsonV::Null,
    decreases kinds.len(),
{
    broadcast use {key_set, stays_table, empty_has_none};

    if kinds.len() > 0 {
        let d = kinds.drop_last();
        kinds_described(d, kind);
        assert(kinds.last() == kinds[kinds.len() - 1]);
        if kinds.contains(kind) && kind != kinds.last() {
            let i = choose|i: int| 0 <= i < kinds.len() && kinds[i] == kind;
            assert(d[i] == kind);
        }
        if d.contains(kind) {
            let i = choose|i: int| 0 <= i < d.len() && d[i] == kind;
            assert(kinds[i] == kind);
        }
    }
}

/// The description of the API has every kind that is known, and of each every field with
/// its type.
#[verifier::rlimit(40)]
pub proof fn api_described(kind: Seq<char>, field: Seq<char>)
    requires
        all_kinds().contains(kind),
    ensures
        kind_fields(kind) matches Some(fields) && fields.contains(field) ==> at(
            at(
                at(
                    at(
                        at(at(at(at(openapi(), "components"@), "schemas"@), kind), "properties"@),
                        "spec"@,
                    ),
                    "properties"@,
                ),
                field,
            ),
            "type"@,
        ) == JsonV::Text(type_of_field(field)),
{
    broadcast use {key_set, stays_table, empty_has_none};

    assert(empty_table() is Table);
    reveal_strlit("openapi");
    reveal_strlit("info");
    reveal_strlit("components");
    reveal_strlit("type");
    reveal_strlit("properties");
    reveal_strlit("apiVersion");
    reveal_strlit("kind");
    reveal_strlit("metadata");
    reveal_strlit("spec");
    assert("openapi"@.len() == 7 && "info"@.len() == 4 && "components"@.len() == 10);
    assert("type"@.len() == 4 && "properties"@.len() == 10);
    assert("apiVersion"@.len() == 10 && "kind"@.len() == 4 && "metadata"@.len() == 8
        && "spec"@.len() == 4);
    assert("kind"@[0] == 'k' && "spec"@[0] == 's');
    kinds_described(all_kinds(), kind);
    assert(at(at(openapi(), "components"@), "schemas"@) == schemas_of(all_kinds()));
    assert(at(at(schema_of_kind(kind), "properties"@), "spec"@) == schema_of_spec(kind));
    if let Some(fields) = kind_fields(kind) {
        fields_described(fields, field);
        assert(at(schema_of_spec(kind), "properties"@) == properties(fields));
    }
}

/// The levels of logs are ordered: errors weigh more than warnings, warnings more than what
/// is told, and that more than anything else.
pub proof fn levels_ordered(other: Seq<char>)
    ensures
        weight("ERROR"@) > weight("WARN"@),
        weight("WARN"@) > weight("INFO"@),
        other != "ERROR"@ && other != "WARN"@ && other != "INFO"@ ==> weight(other) < weight(
            "INFO"@,
        ),
{
    reveal_strlit("ERROR");
    reveal_strlit("WARN");
    reveal_strlit("INFO");
    assert("ERROR"@.len() == 5 && "WARN"@.len() == 4 && "INFO"@.len() == 4);
    assert("WARN"@[0] == 'W' && "INFO"@[0] == 'I');
}

/// A query that asks for nothing in particular is answered with everything. One for a
/// resource leaves out just the logs of others: those of its own spans stay. One for a
/// level leaves out what weighs less. A time that is asked for starts with itself and ends
/// before itself.
pub proof fn logs_asked(e: LogEntry, q: LogQuery, resource: Seq<char>, span: Seq<char>)
    ensures
        q.resource is None && q.level is None && q.since is None && q.until is None ==> asked_for(
            e,
            q,
        ),
        asked_for(e, q) && q.resource is Some ==> e.span@ == q.resource->0@ || starts_with(
            e.span@,
            q.resource->0@ + ":"@,
        ),
        asked_for(e, q) && q.level is Some ==> weight(e.level@) >= weight(q.level->0@),
        q.since is Some && q.since->0@ == e.time@ && q.resource is None && q.level is None
            && q.until is None ==> asked_for(e, q),
        q.until is Some && text_lt(e.time@, q.until->0@) && q.resource is None && q.level is None
            && q.since is None ==> asked_for(e, q),
        q.until is Some && q.until->0@ == e.time@ ==> !asked_for(e, q),
        q.since is Some && text_lt(e.time@, q.since->0@) ==> !asked_for(e, q),
        q.resource is Some && q.resource->0@ == resource && (e.span@ == resource || e.span@
            == resource + ":"@ + span) && q.level is None && q.since is None && q.until is None
            ==> asked_for(e, q),
{
    text_lt_irreflexive(e.time@);
    let p = resource + ":"@;
    let s = resource + ":"@ + span;
    assert(s.subrange(0, p.len() as int) =~= p);
}

/// The logs that are asked for are answered in order, each with its span, level, time and
/// text.
pub proof fn logs_answered(a: Seq<LogEntry>, e: LogEntry, q: LogQuery)
    ensures
        asked_for(e, q) ==> entries_json(a.push(e), q) == entries_json(a, q).push(entry_json(e)),
        !asked_for(e, q) ==> entries_json(a.push(e), q) == entries_json(a, q),
        entries_json(Seq::empty(), q).len() == 0,
        at(entry_json(e), "span"@) == JsonV::Text(e.span@),
        at(entry_json(e), "level"@) == JsonV::Text(e.level@),
        at(entry_json(e), "time"@) == JsonV::Text(e.time@),
        at(entry_json(e), "text"@) == JsonV::Text(e.text@),
{
    broadcast use {key_set, stays_table, empty_has_none};

    assert(a.push(e).drop_last() =~= a);
    assert(empty_table() is Table);
    reveal_strlit("span");
    reveal_strlit("level");
    reveal_strlit("time");
    reveal_strlit("text");
    assert("span"@.len() == 4 && "level"@.len() == 5 && "time"@.len() == 4 && "text"@.len() == 4);
    assert("span"@[0] == 's' && "time"@[0] == 't' && "text"@[0] == 't' && "time"@[1] == 'i'
        && "text"@[1] == 'e');
}

/// An event is told by its type, with the object that it is of.
pub proof fn events_told(o: ObjectV)
    ensures
        at(event_json(EventV::Added(o)), "type"@) == JsonV::Text("ADDED"@),
        at(event_json(EventV::Modified(o)), "type"@) == JsonV::Text("MODIFIED"@),
        at(event_json(EventV::Deleted(o)), "type"@) == JsonV::Text("DELETED"@),
        at(event_json(EventV::Added(o)), "object"@) == o.object,
        at(event_json(EventV::Modified(o)), "object"@) == o.object,
        at(event_json(EventV::Deleted(o)), "object"@) == o.object,
{
    broadcast use {key_set, stays_table, empty_has_none};

    assert(empty_table() is Table);
    reveal_strlit("type");
    reveal_strlit("object");
    assert("type"@.len() == 4 && "object"@.len() == 6);
}

/// A list has all objects, in order, and says of what kind they are.
pub proof fn lists_told(kind: Seq<char>, objects: Seq<ObjectV>)
    ensures
        at(object_list(kind, objects), "kind"@) == JsonV::Text(kind + "List"@),
        at(object_list(kind, objects), "items"@) == JsonV::List(
            objects.map_values(|o: ObjectV| o.object),
        ),
{
    broadcast use {key_set, stays_table, empty_has_none};

    assert(empty_table() is Table);
    reveal_strlit("apiVersion");
    reveal_strlit("kind");
    reveal_strlit("metadata");
    reveal_strlit("items");
    assert("apiVersion"@.len() == 10 && "kind"@.len() == 4 && "metadata"@.len() == 8
        && "items"@.len() == 5);
}

/// Lower case stays lower case.
proof fn lower_twice(s: Seq<char>)
    ensures
        lowercase(lowercase(s)) == lowercase(s),
{
    assert forall|i: int| 0 <= i < s.len() implies lowercase(lowercase(s))[i] == lowercase(
        s,
    )[i] by {
        let c = s[i];
        if crate::text::is_upper(c) {
            assert(lower(c) as int == c as int + 32);
        }
    }
    assert(lowercase(lowercase(s)) =~= lowercase(s));
}

/// Each kind that can be reconciled has a controller of its own, whatever the case of its
/// letters.
pub proof fn controllers_told(kind: Seq<char>)
    ensures
        controller_for(lowercase(kind)) == controller_for(kind),
        lowercase(kind) == "kubernetesapply"@ ==> controller_for(kind) == Some(Controller::Apply),
        lowercase(kind) == "kubernetesdiscovery"@ ==> controller_for(kind) == Some(
            Controller::Discovery,
        ),
        lowercase(kind) == "podwatch"@ ==> controller_for(kind) == Some(Controller::PodWatch)
            && lookup_kind(kind) == "KubernetesDiscovery"@,
        lowercase(kind) == "podlogstream"@ ==> controller_for(kind) == Some(
            Controller::PodLogStream,
        ),
        lowercase(kind) == "dockercomposeservice"@ ==> controller_for(kind) == Some(
            Controller::Compose,
        ),
        lowercase(kind) == "portforward"@ ==> controller_for(kind) == Some(Controller::PortForward),
        lowercase(kind) == "liveupdate"@ ==> controller_for(kind) == Some(Controller::LiveUpdate),
{
    lower_twice(kind);
    reveal_strlit("kubernetesapply");
    reveal_strlit("kubernetesdiscovery");
    reveal_strlit("podwatch");
    reveal_strlit("podlogstream");
    reveal_strlit("dockercomposeservice");
    reveal_strlit("portforward");
    reveal_strlit("liveupdate");
    assert("kubernetesapply"@.len() == 15 && "kubernetesdiscovery"@.len() == 19
        && "podwatch"@.len() == 8 && "podlogstream"@.len() == 12 && "dockercomposeservice"@.len()
        == 20 && "portforward"@.len() == 11 && "liveupdate"@.len() == 10);
    if lowercase(kind) == "podwatch"@ {
        discovery_known();
    }
}

#[verifier::rlimit(40)]
proof fn discovery_known()
    ensures
        crate::cli::objects::resolved_kind(all_kinds(), "KubernetesDiscovery"@) == Some(
            "KubernetesDiscovery"@,
        ),
{
    let k = "KubernetesDiscovery"@;
    let kinds = all_kinds();
    assert(kinds[11] == k);
    crate::cli::command_laws::kind_resolved(kinds, k, 11);
    let found = crate::cli::objects::resolved_kind(kinds, k)->0;
    let i = choose|i: int| 0 <= i < kinds.len() && kinds[i] == found;
    assert(lowercase(found).len() == found.len());
    assert(lowercase(k).len() == k.len());
    reveal_strlit("Cmd");
    reveal_strlit("CmdImage");
    reveal_strlit("ConfigMap");
    reveal_strlit("DockerComposeLogStream");
    reveal_strlit("DockerComposeService");
    reveal_strlit("DockerImage");
    reveal_strlit("Extension");
    reveal_strlit("ExtensionRepo");
    reveal_strlit("FileWatch");
    reveal_strlit("ImageMap");
    reveal_strlit("KubernetesApply");
    reveal_strlit("KubernetesDiscovery");
    reveal_strlit("LiveUpdate");
    reveal_strlit("PodLogStream");
    reveal_strlit("PortForward");
    reveal_strlit("Session");
    reveal_strlit("Tiltfile");
    reveal_strlit("ToggleButton");
    reveal_strlit("UIButton");
    assert(kinds[i].len() == 19);
}

/// The button that disables a resource toggles that resource, and no button of another kind
/// toggles any.
pub proof fn buttons_toggle(b: UIButton, resource: Seq<char>, uid: Seq<char>)
    ensures
        toggles(b, resource, uid) && resource.len() > 0 ==> toggled_by(b) == Some(resource),
        toggled_by(b) matches Some(r) ==> b.spec is Some && b.spec->0.location.component_id@ == r
            && r.len() > 0 && b.metadata is Some && b.metadata->0.annotations is Some,
{
    if toggles(b, resource, uid) {
        let a = pairs(b.metadata->0.annotations->0@);
        assert(a[0].0 == "tilt.dev/uibutton-type"@);
    }
}

/// A condition that was set is the one that is found.
pub proof fn condition_set_found(
    c: Seq<UIResourceCondition>,
    kind: Seq<char>,
    x: UIResourceCondition,
    other: Seq<char>,
)
    requires
        x.condition_type@ == kind,
    ensures
        condition_of(other_conditions(c, kind).push(x), kind) == Some(x),
        other != kind ==> condition_of(other_conditions(c, kind).push(x), other) == condition_of(
            c,
            other,
        ),
    decreases c.len(),
{
    others_found(c, kind, other);
    condition_behind(other_conditions(c, kind), x, kind);
    condition_behind(other_conditions(c, kind), x, other);
    none_left(c, kind);
}

proof fn none_left(c: Seq<UIResourceCondition>, kind: Seq<char>)
    ensures
        condition_of(other_conditions(c, kind), kind) is None,
    decreases c.len(),
{
    if c.len() > 0 {
        none_left(c.drop_last(), kind);
        condition_behind(other_conditions(c.drop_last(), kind), c.last(), kind);
    }
}

proof fn others_found(c: Seq<UIResourceCondition>, kind: Seq<char>, other: Seq<char>)
    ensures
        other != kind ==> condition_of(other_conditions(c, kind), other) == condition_of(c, other),
    decreases c.len(),
{
    if c.len() > 0 {
        let d = c.drop_last();
        others_found(d, kind, other);
        condition_behind(other_conditions(d, kind), c.last(), other);
        condition_behind(d, c.last(), other);
        assert(d.push(c.last()) =~= c);
    }
}

proof fn condition_behind(c: Seq<UIResourceCondition>, x: UIResourceCondition, kind: Seq<char>)
    ensures
        condition_of(c.push(x), kind) == (match condition_of(c, kind) {
            Some(y) => Some(y),
            None => if x.condition_type@ == kind {
                Some(x)
            } else {
                None
            },
        }),
    decreases c.len(),
{
    let all = c.push(x);
    if c.len() > 0 {
        assert(all[0] == c[0]);
        assert(all.drop_first() =~= c.drop_first().push(x));
        condition_behind(c.drop_first(), x, kind);
    } else {
        assert(all[0] == x);
        assert(all.drop_first() =~= c);
    }
}

/// A resource that starts out is shown under its name and kind, active and pending, with
/// nothing built; what does not serve has no runtime to wait for.
pub proof fn resource_starts(
    d: ResourceSnapshot,
    r: UIResource,
    m: Manifest,
    order: i32,
    uid: Seq<char>,
)
    requires
        starts_out(r, m, order, uid),
        shows_resource(d, r),
    ensures
        d.name@ == m.name@,
        !d.paused,
        d.update_status@ == "pending"@,
        m.kind == TargetKind::Local && m.serve_cmd.argv@.len() == 0 ==> d.runtime_status@
            == "not_applicable"@,
        m.kind != TargetKind::Local || m.serve_cmd.argv@.len() > 0 ==> d.runtime_status@
            == "pending"@,
        d.build_count == 0,
        d.pod is None,
        d.last_deploy is None,
        m.links@.len() > 0 ==> d.url is Some && d.url->0@ == m.links@[0].0@,
        m.links@.len() == 0 ==> d.url is None,
{
    reveal_strlit("Enabled");
    reveal_strlit("Disabled");
    assert("Enabled"@.len() == 7 && "Disabled"@.len() == 8);
    let st = r.status->0;
    if m.links@.len() > 0 {
        assert(pairs(m.links@)[0] == (m.links@[0].0@, m.links@[0].1@));
        assert(st.endpoint_links@[0].url is Some);
    }
}

/// Every kind that is known is listed, under its name in lower case, with everything that
/// can be done with it.
pub proof fn kinds_offered(i: int)
    requires
        0 <= i < all_kinds().len(),
    ensures
        at(crate::server::resource_list(), "resources"@) matches JsonV::List(l) && l.len()
            == all_kinds().len() && {
            &&& at(l[i], "kind"@) == JsonV::Text(all_kinds()[i])
            &&& at(l[i], "singularName"@) == JsonV::Text(lowercase(all_kinds()[i]))
            &&& at(l[i], "name"@) == JsonV::Text(lowercase(all_kinds()[i]) + "s"@)
            &&& at(l[i], "namespaced"@) == JsonV::Bool(false)
            &&& at(l[i], "verbs"@) == crate::json::text_list(
                seq!["get"@, "list"@, "watch"@, "create"@, "update"@, "patch"@, "delete"@],
            )
        },
{
    broadcast use {key_set, stays_table, empty_has_none};

    assert(empty_table() is Table);
    reveal_strlit("name");
    reveal_strlit("singularName");
    reveal_strlit("kind");
    reveal_strlit("namespaced");
    reveal_strlit("verbs");
    reveal_strlit("apiVersion");
    reveal_strlit("groupVersion");
    reveal_strlit("resources");
    assert("name"@.len() == 4 && "singularName"@.len() == 12 && "kind"@.len() == 4
        && "namespaced"@.len() == 10 && "verbs"@.len() == 5);
    assert("name"@[0] == 'n' && "kind"@[0] == 'k');
    assert("apiVersion"@.len() == 10 && "groupVersion"@.len() == 12 && "resources"@.len() == 9);
    let l = all_kinds().map_values(|k: Seq<char>| crate::server::resource_entry(k));
    assert(at(crate::server::resource_list(), "resources"@) == JsonV::List(l));
    assert(l[i] == crate::server::resource_entry(all_kinds()[i]));
}

} // verus!
