//! What commands choose and report, whatever they are given.

use vstd::prelude::*;
use vstd::string::*;

use crate::cli::control::{any_host, counted_text, hosts_of, ids_of, project_directory};
use crate::cli::objects::{
    addrs_of, api_objects, chosen, condition, first_named, kind_and_name, named_objects,
    objects_printed, path_text, plain_text, resolved_kind, response_parts, value_at, wait_over,
    write_report,
};
use crate::cli::skills::{agents_of, install_dir, shown_name, SkillScope, SkillTarget};
use crate::daemon::protocol::{InstanceStateV, RouteV, SnapshotV};
use crate::json::{at, get, JsonV};
use crate::netmodes::local_name_of;
use crate::path_laws::{are_names, path_of_names, rooted};
use crate::paths::join_path;
use crate::text::{
    dec, ends_with, find_from, lowercase, split, starts_with, upper,
};
use crate::text_laws::{
    blank, first_char, lacks, no_char, one_piece, pieces_apart, snug, trims_around,
};

verus! {

/// Objects are chosen by their name where one is given, else all are, in order.
pub proof fn objects_chosen(objects: Seq<SnapshotV>, name: Seq<char>, x: SnapshotV)
    ensures
        chosen(objects, None) == objects,
        chosen(objects, Some(name)).contains(x) <==> objects.contains(x) && x.name == name,
    decreases objects.len(),
{
    if objects.len() > 0 {
        let d = objects.drop_last();
        let rest = named_objects(d, name);
        let all = named_objects(objects, name);
        objects_chosen(d, name, x);
        assert(chosen(d, Some(name)) == rest);
        assert(objects.last() == objects[objects.len() - 1]);
        if all.contains(x) && !rest.contains(x) {
            let i = choose|i: int| 0 <= i < all.len() && all[i] == x;
            if i < rest.len() {
                assert(rest[i] == x);
            }
        }
        if rest.contains(x) {
            let i = choose|i: int| 0 <= i < rest.len() && rest[i] == x;
            assert(all[i] == x);
            let j = choose|j: int| 0 <= j < d.len() && d[j] == x;
            assert(objects[j] == x);
        }
        if objects.contains(x) && x.name == name {
            let j = choose|j: int| 0 <= j < objects.len() && objects[j] == x;
            if j < d.len() {
                assert(d[j] == x);
            } else {
                assert(all[rest.len() as int] == x);
            }
        }
    }
}

/// A list of objects has a line for each that is chosen, under a heading; a name that no
/// object has is an error; no objects at all are said to be none.
pub proof fn objects_listed(
    kind: Seq<char>,
    name: Option<Seq<char>>,
    objects: Seq<SnapshotV>,
    json: bool,
)
    ensures
        objects_printed(kind, name, objects, json) is Err <==> name is Some && chosen(
            objects,
            name,
        ).len() == 0,
        chosen(objects, name).len() > 0 ==> objects_printed(kind, name, objects, false) is Ok
            && objects_printed(kind, name, objects, false)->Ok_0.len() == 1 + chosen(
            objects,
            name,
        ).len(),
        chosen(objects, name).len() > 0 ==> objects_printed(kind, name, objects, true) is Ok
            && objects_printed(kind, name, objects, true)->Ok_0.len() == 1,
{
}

/// The object that is described is the first of its name.
pub proof fn first_found(objects: Seq<SnapshotV>, name: Seq<char>, i: int)
    requires
        0 <= i <= objects.len(),
        forall|j: int| 0 <= j < i ==> (#[trigger] objects[j]).name != name,
    ensures
        i == objects.len() ==> first_named(objects, name) is None,
        i < objects.len() && objects[i].name == name ==> first_named(objects, name) == Some(
            objects[i],
        ),
    decreases objects.len(),
{
    if objects.len() > 0 && i > 0 {
        assert(objects[0].name != name);
        let d = objects.drop_first();
        assert forall|j: int| 0 <= j < i - 1 implies (#[trigger] d[j]).name != name by {
            assert(d[j] == objects[j + 1]);
        }
        first_found(d, name, i - 1);
        if i < objects.len() {
            assert(d[i - 1] == objects[i]);
        }
    }
}

/// The instances of a directory are all that run there, in order; their servers are those
/// of them that have one.
pub proof fn instances_of_directory(
    a: Seq<InstanceStateV>,
    i: InstanceStateV,
    dir: Seq<char>,
)
    ensures
        i.dir == dir ==> ids_of(a.push(i), dir) == ids_of(a, dir).push(i.id),
        i.dir != dir ==> ids_of(a.push(i), dir) == ids_of(a, dir),
        i.dir == dir && i.api_addr is Some ==> addrs_of(a.push(i), dir) == addrs_of(a, dir).push(
            i.api_addr->0@,
        ),
        i.dir != dir || i.api_addr is None ==> addrs_of(a.push(i), dir) == addrs_of(a, dir),
        ids_of(Seq::empty(), dir).len() == 0 && addrs_of(Seq::empty(), dir).len() == 0,
{
    assert(a.push(i).drop_last() =~= a);
}

/// A path of keys leads into an object key by key; what it ends at is shown as it is where
/// it is a text.
pub proof fn path_led(o: JsonV, key: Seq<char>, rest: Seq<char>, text: Seq<char>)
    requires
        lacks(key, '.'),
    ensures
        get(o, key) matches Some(v) ==> path_text(o, key) == Some(plain_text(v)),
        get(o, key) is None ==> path_text(o, key) is None && path_text(o, key + "."@ + rest)
            is None,
        get(o, key) matches Some(v) ==> path_text(o, key + "."@ + rest) == path_text(v, rest),
        plain_text(JsonV::Text(text)) == text,
{
    reveal_strlit(".");
    assert("."@ =~= seq!['.']);
    one_piece(key, '.');
    pieces_apart(key, '.', rest);
    reveal_with_fuel(value_at, 2);
    let one = seq![key];
    assert(one.drop_first() =~= Seq::empty());
    let all = seq![key] + split(rest, "."@);
    assert(split(key + "."@ + rest, "."@) == all);
    assert(all[0] == key);
    assert(all.drop_first() =~= split(rest, "."@));
}

/// A condition is a field and the value that it has to have, without white space around
/// either.
pub proof fn condition_told(
    left: Seq<char>,
    field: Seq<char>,
    mid: Seq<char>,
    value: Seq<char>,
    right: Seq<char>,
)
    requires
        blank(left),
        blank(mid),
        blank(right),
        snug(field),
        snug(value),
        lacks(field, '='),
        lacks(left, '='),
        lacks(mid, '='),
    ensures
        condition(left + field + mid + "="@ + mid + value + right) == (field, value),
        condition(left + field + mid) == (field, Seq::<char>::empty()),
{
    reveal_strlit("=");
    assert("="@ =~= seq!['=']);
    let f = left + field + mid;
    let v = mid + value + right;
    let s = left + field + mid + "="@ + mid + value + right;
    assert forall|i: int| 0 <= i < f.len() implies #[trigger] f[i] != '=' by {
        if i < left.len() {
            assert(f[i] == left[i]);
        } else if i < left.len() + field.len() {
            assert(f[i] == field[i - left.len()]);
        } else {
            assert(f[i] == mid[i - left.len() - field.len()]);
        }
    }
    assert(s =~= f + seq!['='] + v);
    first_char(f, '=', v, 0);
    assert(s.take(f.len() as int) =~= f);
    assert(s.skip((f.len() + 1) as int) =~= v);
    trims_around(left, field, mid);
    trims_around(mid, value, right);
    no_char(f, '=', 0);
}

/// Waiting ends just where the object is there and its field, if one is asked for, has the
/// value.
pub proof fn wait_ends(status: u16, body: JsonV, field: Seq<char>, expected: Seq<char>)
    ensures
        status != 200 ==> !wait_over(status, body, field, expected),
        wait_over(200, body, Seq::empty(), expected),
        field.len() > 0 && path_text(body, field) == Some(expected) ==> wait_over(
            200,
            body,
            field,
            expected,
        ),
        field.len() > 0 && path_text(body, field) is Some && path_text(body, field)->0 != expected
            ==> !wait_over(200, body, field, expected),
        field.len() > 0 && path_text(body, field) is None && expected.len() > 0 ==> !wait_over(
            200,
            body,
            field,
            expected,
        ),
{
}

/// A kind is found whatever the case of its letters; what is found is among the kinds.
pub proof fn kind_resolved(kinds: Seq<Seq<char>>, kind: Seq<char>, i: int)
    ensures
        resolved_kind(kinds, kind) matches Some(k) ==> kinds.contains(k) && lowercase(k)
            == lowercase(kind),
        0 <= i < kinds.len() && lowercase(kinds[i]) == lowercase(kind) ==> resolved_kind(
            kinds,
            kind,
        ) is Some,
    decreases kinds.len(),
{
    if kinds.len() > 0 {
        let d = kinds.drop_first();
        kind_resolved(d, kind, i - 1);
        if lowercase(kinds[0]) == lowercase(kind) {
            assert(kinds.contains(kinds[0]));
        } else {
            if let Some(k) = resolved_kind(d, kind) {
                let j = choose|j: int| 0 <= j < d.len() && d[j] == k;
                assert(kinds[j + 1] == k);
            }
            if 0 < i < kinds.len() {
                assert(d[i - 1] == kinds[i]);
            }
        }
    }
}

/// A write is reported done just where the server took it; each refusal is told apart.
pub proof fn writes_reported(status: u16, kind: Seq<char>, name: Seq<char>, verb: Seq<char>)
    ensures
        write_report(status, kind, name, verb) is Ok <==> status == 200 || status == 201,
        status == 200 || status == 201 ==> write_report(status, kind, name, verb)->Ok_0 == kind
            + "/"@ + name + " "@ + verb,
        write_report(409, kind, name, verb) == Err::<Seq<char>, Seq<char>>(
            kind + "/"@ + name + " already exists"@,
        ),
        write_report(404, kind, name, verb) == Err::<Seq<char>, Seq<char>>(
            kind + "/"@ + name + " not found"@,
        ),
        write_report(400, kind, name, verb) == Err::<Seq<char>, Seq<char>>(
            kind + "/"@ + name + ": bad request"@,
        ),
{
}

/// Documents are read in order, but for empty ones; the first that cannot be read ends it
/// all.
pub proof fn documents_read(
    a: Seq<Result<serde_yaml::Value, Seq<char>>>,
    b: Seq<Result<serde_yaml::Value, Seq<char>>>,
)
    ensures
        api_objects(a) is Err ==> api_objects(a + b) == api_objects(a),
        api_objects(a) is Ok && api_objects(b) is Ok ==> api_objects(a + b) is Ok && api_objects(
            a + b,
        )->Ok_0 == api_objects(a)->Ok_0 + api_objects(b)->Ok_0,
        api_objects(a) is Ok && api_objects(b) is Err ==> api_objects(a + b) == api_objects(b),
    decreases b.len(),
{
    if b.len() > 0 {
        assert((a + b).drop_last() =~= a + b.drop_last());
        assert((a + b).last() == b.last());
        documents_read(a, b.drop_last());
        if api_objects(a) is Ok && api_objects(b) is Ok {
            assert(api_objects(a + b)->Ok_0 =~= api_objects(a)->Ok_0 + api_objects(b)->Ok_0);
        }
    } else {
        assert(a + b =~= a);
        if api_objects(a) is Ok {
            assert(api_objects(a)->Ok_0 + api_objects(b)->Ok_0 =~= api_objects(a)->Ok_0);
        }
    }
}

/// An object is named by its kind and the name in its metadata; without either it is an
/// error.
pub proof fn object_named(o: JsonV, kind: Seq<char>, name: Seq<char>)
    ensures
        at(o, "kind"@) == JsonV::Text(kind) && at(at(o, "metadata"@), "name"@) == JsonV::Text(name)
            ==> kind_and_name(o) == Ok::<(Seq<char>, Seq<char>), Seq<char>>((kind, name)),
        at(o, "kind"@) == JsonV::Null || at(at(o, "metadata"@), "name"@) == JsonV::Null
            ==> kind_and_name(o) is Err,
{
}

/// The lines for the hosts file name every route in order, but for those that resolve by
/// themselves.
pub proof fn hosts_listed(a: Seq<RouteV>, r: RouteV)
    ensures
        !ends_with(r.hostname, ".localhost"@) ==> hosts_of(a.push(r)) == hosts_of(a) + "127.0.0.1 "@
            + r.hostname + " # starling\n"@,
        ends_with(r.hostname, ".localhost"@) ==> hosts_of(a.push(r)) == hosts_of(a),
        any_host(a.push(r)) <==> any_host(a) || !ends_with(r.hostname, ".localhost"@),
        hosts_of(Seq::empty()).len() == 0,
{
    let all = a.push(r);
    assert(all.drop_last() =~= a);
    let h = r.hostname;
    assert(hosts_of(a) + ("127.0.0.1 "@ + h + " # starling\n"@) =~= hosts_of(a) + "127.0.0.1 "@ + h
        + " # starling\n"@);
    if any_host(a) {
        let i = choose|i: int|
            0 <= i < a.len() && !ends_with((#[trigger] a[i]).hostname, ".localhost"@);
        assert(all[i] == a[i]);
    }
    assert(all[a.len() as int] == r);
    if any_host(all) && ends_with(h, ".localhost"@) {
        let i = choose|i: int|
            0 <= i < all.len() && !ends_with((#[trigger] all[i]).hostname, ".localhost"@);
        assert(a[i] == all[i]);
    }
}

/// One thing is counted in the singular, any other number in the plural.
pub proof fn counts_told(n: nat, what: Seq<char>, plural: Seq<char>)
    ensures
        counted_text(1, what, plural) == dec(1) + " "@ + what,
        n != 1 ==> counted_text(n, what, plural) == dec(n) + " "@ + what + plural,
{
    assert(counted_text(1, what, plural) =~= dec(1) + " "@ + what);
}

/// Skills of a project are installed in it; those of a user in their home, unless the agent
/// has one of its own. All agents are both of them.
pub proof fn skills_installed(
    agent: Seq<char>,
    cwd: Seq<char>,
    home: Seq<char>,
    own: Seq<char>,
    target: SkillTarget,
    x: Option<Seq<char>>,
    y: Option<Seq<char>>,
)
    ensures
        install_dir(target, agent, SkillScope::Project, cwd, x, y) is Ok && install_dir(
            target,
            agent,
            SkillScope::Project,
            cwd,
            x,
            y,
        )->Ok_0 == join_path(join_path(cwd, "."@ + agent), "skills"@),
        install_dir(SkillTarget::Codex, agent, SkillScope::User, cwd, x, Some(own)) is Ok
            && install_dir(
            SkillTarget::Codex,
            agent,
            SkillScope::User,
            cwd,
            x,
            Some(own),
        )->Ok_0 == join_path(own, "skills"@),
        target != SkillTarget::Codex ==> install_dir(
            target,
            agent,
            SkillScope::User,
            cwd,
            Some(home),
            y,
        ) is Ok && install_dir(target, agent, SkillScope::User, cwd, Some(home), y)->Ok_0
            == join_path(join_path(home, "."@ + agent), "skills"@),
        install_dir(SkillTarget::Codex, agent, SkillScope::User, cwd, Some(home), None) is Ok
            && install_dir(
            SkillTarget::Codex,
            agent,
            SkillScope::User,
            cwd,
            Some(home),
            None,
        )->Ok_0 == join_path(join_path(home, "."@ + agent), "skills"@),
        install_dir(target, agent, SkillScope::User, cwd, None, None) is Err,
        agents_of(SkillTarget::All) == seq![SkillTarget::Codex, SkillTarget::Claude],
        target != SkillTarget::All ==> agents_of(target) == seq![target],
        agent.len() > 0 ==> shown_name(agent).len() == agent.len() && shown_name(agent)[0] == upper(
            agent[0],
        ) && shown_name(agent).skip(1) == agent.skip(1),
{
    if agent.len() > 0 {
        assert(shown_name(agent).skip(1) =~= agent.skip(1));
    }
}

/// A host is advertised by its first label.
pub proof fn first_label_advertised(label: Seq<char>, rest: Seq<char>)
    requires
        lacks(label, '.'),
    ensures
        local_name_of(label) == label + ".local"@,
        local_name_of(label + "."@ + rest) == label + ".local"@,
{
    reveal_strlit(".");
    assert("."@ =~= seq!['.']);
    one_piece(label, '.');
    pieces_apart(label, '.', rest);
    let p = split(label + "."@ + rest, "."@);
    assert(p[0] == label);
}

/// A response is its head and, behind the first blank line, its body.
pub proof fn response_cut(head: Seq<char>, body: Seq<char>)
    requires
        forall|i: int|
            0 <= i < head.len() ==> #[trigger] (head + "\r\n\r\n"@).subrange(i, i + 4)
                != "\r\n\r\n"@,
    ensures
        response_parts(head + "\r\n\r\n"@ + body) == (head, body),
{
    reveal_strlit("\r\n\r\n");
    let s = head + "\r\n\r\n"@ + body;
    blank_found(head, body, 0);
    assert(s.take(head.len() as int) =~= head);
    assert(s.skip((head.len() + 4) as int) =~= body);
}

proof fn blank_found(head: Seq<char>, body: Seq<char>, from: int)
    requires
        forall|i: int|
            0 <= i < head.len() ==> #[trigger] (head + "\r\n\r\n"@).subrange(i, i + 4)
                != "\r\n\r\n"@,
        0 <= from <= head.len(),
    ensures
        find_from(head + "\r\n\r\n"@ + body, "\r\n\r\n"@, from) == Some(head.len() as int),
    decreases head.len() - from,
{
    reveal_strlit("\r\n\r\n");
    let s = head + "\r\n\r\n"@ + body;
    if from < head.len() {
        assert(s.subrange(from, from + 4) =~= (head + "\r\n\r\n"@).subrange(from, from + 4));
        blank_found(head, body, from + 1);
    } else {
        assert(s.subrange(from, from + 4) =~= "\r\n\r\n"@);
    }
}

/// A project lies where its config does, and where the command runs if none is given.
pub proof fn project_lies(v: Seq<Seq<char>>, current: Seq<char>)
    requires
        are_names(v),
        v.len() > 0,
    ensures
        project_directory(Some(rooted(v)), Some(current)) == rooted(v.drop_last()),
        project_directory(None, Some(current)) == current,
        v.len() == 1 ==> project_directory(Some(v[0]), Some(current)) == current,
{
    path_of_names(v);
    crate::engine::event_laws::directory_told(v);
    assert((seq!["/"@] + v).len() == v.len() + 1);
    assert(v.len() == 1 ==> crate::text::join(v, "/"@) == v[0]);
}

/// An object is described by its name and kind, then by what it says of itself: its id and
/// version where it has them, its spec and its status.
pub proof fn object_described_told(
    o: SnapshotV,
    uid: Seq<char>,
    version: Seq<char>,
    spec: JsonV,
    status: JsonV,
)
    requires
        at(at(o.object, "metadata"@), "uid"@) == JsonV::Text(uid),
        at(at(o.object, "metadata"@), "resourceVersion"@) == JsonV::Text(version),
        get(o.object, "spec"@) == Some(spec),
        get(o.object, "status"@) == Some(status),
    ensures
        crate::cli::objects::object_described(o) == seq![
            "Name:    "@ + o.name,
            "Kind:    "@ + o.kind,
            "UID:     "@ + uid,
            "Version: "@ + version,
            "Spec:\n"@ + crate::trees::json_laid_out(spec),
            "Status:\n"@ + crate::trees::json_laid_out(status),
        ],
{
    assert(crate::cli::objects::object_described(o) =~= seq![
        "Name:    "@ + o.name,
        "Kind:    "@ + o.kind,
        "UID:     "@ + uid,
        "Version: "@ + version,
        "Spec:\n"@ + crate::trees::json_laid_out(spec),
        "Status:\n"@ + crate::trees::json_laid_out(status),
    ]);
}

/// Kinds are listed once each, in order, and all that objects have.
pub proof fn kinds_listed(objects: Seq<SnapshotV>, i: int)
    ensures
        objects.len() == 0 ==> crate::cli::objects::kinds_printed(objects).len() == 1,
        0 <= i < objects.len() ==> crate::cli::objects::kinds_printed(objects).contains(
            "  "@ + objects[i].kind,
        ) && crate::cli::objects::kinds_printed(objects)[0] == "Available kinds:"@,
{
    let all = crate::cli::objects::kinds_of(objects);
    crate::k8s::sorted_unique_ok(all);
    let kinds = crate::k8s::sorted_unique(all);
    if 0 <= i < objects.len() {
        assert(all[i] == objects[i].kind);
        assert(all.contains(objects[i].kind));
        assert(kinds.contains(objects[i].kind));
        let k = choose|k: int| 0 <= k < kinds.len() && kinds[k] == objects[i].kind;
        assert(crate::cli::objects::indented(kinds)[k] == "  "@ + objects[i].kind);
        assert(crate::cli::objects::kinds_printed(objects)[k + 1] == "  "@ + objects[i].kind);
    }
}

/// A request names its method, path and host, and what it sends with its size in bytes.
#[verifier::rlimit(40)]
pub proof fn request_told(addr: Seq<char>, method: Seq<char>, path: Seq<char>, body: JsonV)
    ensures
        starts_with(
            crate::cli::objects::api_request_text(addr, method, path, None),
            method + " "@ + path + " HTTP/1.1\r\nHost: "@ + addr + "\r\n"@,
        ),
        starts_with(
            crate::cli::objects::api_request_text(addr, method, path, Some(body)),
            method + " "@ + path + " HTTP/1.1\r\nHost: "@ + addr + "\r\n"@,
        ),
        ends_with(
            crate::cli::objects::api_request_text(addr, method, path, Some(body)),
            "Content-Length: "@ + dec(
                vstd::utf8::encode_utf8(crate::trees::json_written(body)).len(),
            ) + "\r\n\r\n"@ + crate::trees::json_written(body),
        ),
{
    let p = method + " "@ + path + " HTTP/1.1\r\nHost: "@ + addr + "\r\n"@;
    reveal_strlit("\r\n");
    reveal_strlit("\r\nConnection: close\r\n");
    reveal_strlit("Connection: close\r\n");
    assert("\r\nConnection: close\r\n"@ =~= "\r\n"@ + "Connection: close\r\n"@);
    let bare = crate::cli::objects::api_request_text(addr, method, path, None);
    let full = crate::cli::objects::api_request_text(addr, method, path, Some(body));
    assert(bare =~= p + ("Connection: close\r\n"@ + "\r\n"@));
    crate::word_laws::parts_told(p, "Connection: close\r\n"@ + "\r\n"@);
    let text = crate::trees::json_written(body);
    let size = dec(vstd::utf8::encode_utf8(text).len());
    reveal_strlit("Content-Type: application/json\r\nContent-Length: ");
    reveal_strlit("Content-Type: application/json\r\n");
    reveal_strlit("Content-Length: ");
    assert("Content-Type: application/json\r\nContent-Length: "@
        =~= "Content-Type: application/json\r\n"@ + "Content-Length: "@);
    let tail = "Content-Length: "@ + size + "\r\n\r\n"@ + text;
    let mid = "Connection: close\r\n"@ + "Content-Type: application/json\r\n"@;
    assert(full =~= p + (mid + tail));
    crate::word_laws::parts_told(p, mid + tail);
    assert(full =~= (p + mid) + tail);
    crate::word_laws::parts_told(tail, p + mid);
}

/// A kind is explained by its fields, whatever the case of its letters; one that is not
/// known is an error; without a kind all are listed.
pub proof fn kinds_explained(kind: Seq<char>, name: Seq<char>, fields: Seq<Seq<char>>, i: int)
    ensures
        resolved_kind(crate::api::schema::all_kinds(), kind) is None
            ==> crate::cli::objects::explained(Some(kind)) is Err,
        resolved_kind(crate::api::schema::all_kinds(), kind) == Some(name)
            && crate::api::schema::kind_fields(name) == Some(fields) && 0 <= i < fields.len() ==> {
            &&& crate::cli::objects::explained(Some(kind)) is Ok
            &&& crate::cli::objects::explained(Some(kind))->Ok_0.len() == 2 + fields.len()
            &&& crate::cli::objects::explained(Some(kind))->Ok_0[0] == name
                + " (tilt.dev/v1alpha1)"@
            &&& crate::cli::objects::explained(Some(kind))->Ok_0[2 + i] == "  "@ + fields[i]
        },
        crate::cli::objects::explained(None) is Ok && crate::cli::objects::explained(
            None,
        )->Ok_0.len() == 1 + crate::api::schema::all_kinds().len(),
{
}

/// What an instance does with a command is what the command says; a resource that it does
/// not know is not paused.
pub proof fn commands_carried_out(
    c: crate::daemon::protocol::Command,
    known: Seq<Seq<char>>,
    s: crate::cli::up::InstanceStep,
)
    requires
        crate::cli::up::carries_out(c, known, s),
    ensures
        c matches crate::daemon::protocol::Command::Trigger { resource } ==> s is Trigger
            && s->Trigger_0@ == resource@,
        c matches crate::daemon::protocol::Command::Restart { resource } ==> s is Restart
            && s->Restart_0@ == resource@,
        c matches crate::daemon::protocol::Command::SetPort { resource, port } ==> s is SetPort
            && s->SetPort_0@ == resource@ && s->SetPort_1 == port,
        c matches crate::daemon::protocol::Command::SetPaused { resource, paused } ==> (
        if known.contains(resource@) {
            s is SetPaused && s->resource@ == resource@ && s->paused == paused
        } else {
            s is Nothing
        }),
        c is Shutdown ==> s is Shutdown,
{
}

/// The status of a response is the number behind its version, on its first line; without
/// one there is none. Its body is what it holds as JSON, or nothing where it is blank.
pub proof fn response_status_told(
    version: Seq<char>,
    gap: Seq<char>,
    n: u16,
    rest: Seq<char>,
    more: Seq<char>,
    body: Seq<char>,
    j: JsonV,
)
    requires
        version.len() > 0,
        forall|i: int| 0 <= i < version.len() ==> !crate::text::is_space(#[trigger] version[i]),
        gap.len() > 0,
        blank(gap),
        lacks(version + gap + dec(n as nat) + gap + rest, '\n'),
        snug(body),
    ensures
        crate::cli::objects::response_status(
            version + gap + dec(n as nat) + gap + rest + "\r\n"@ + more,
        ) == Some(n as nat),
        crate::cli::objects::response_status(Seq::empty()) is None,
        crate::trees::json_read(body) == Ok::<JsonV, Seq<char>>(j)
            ==> crate::cli::objects::response_json(gap + body + gap) == j,
        crate::cli::objects::response_json(gap) == JsonV::Null,
{
    let line = version + gap + dec(n as nat) + gap + rest;
    crate::web_laws::lines_told(line, more);
    let l = seq![line] + crate::text::lines(more);
    assert(l[0] == line);
    crate::health_laws::status_read(version, n, gap, rest);
    trims_around(gap, body, gap);
    crate::text_laws::trims_blank(gap);
}

} // verus!
