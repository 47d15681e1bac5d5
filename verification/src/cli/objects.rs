//! Commands that read and write API objects: what they ask for and what they print.

use vstd::prelude::*;
use vstd::string::*;
use vstd::utf8::encode_utf8;

use crate::api::schema::{all_kinds, kind_fields, known_kinds, spec_fields, strs};
use crate::daemon::protocol::{
    snapshots_view, states_view, ApiObjectSnapshot, DashboardState, InstanceStateV, SnapshotV,
};
use crate::json::{as_text, at, get, list_view, list_view_push, Json, JsonV};
use crate::k8s::{sort_unique, sorted_unique};
use crate::text::{
    cat, cat3, cut, debug_text, debugged, dec, decimal, lines, lines_of, lossy, lossy_text,
    lowercase, lowered, opt_text, owned, pad, padded, parse_uint, parsed, pieces, same, split,
    split_once, texts, texts_push, trim, trimmed, words, words_of,
};
use crate::trees::{
    doc_view, doc_views, documents_to_error, json_laid_out, json_of_value, json_pretty, json_read,
    json_text, json_written, parse_json, strict_docs, untagged, yaml_as_json, yaml_contents,
    yaml_of_value, yaml_to_json,
};

verus! {

/// The result of a command: the lines that it prints, or its error.
pub open spec fn printed(r: Result<Vec<String>, String>) -> Result<Seq<Seq<char>>, Seq<char>> {
    match r {
        Ok(v) => Ok(texts(v@)),
        Err(e) => Err(e@),
    }
}

/// The kinds of objects.
pub open spec fn kinds_of(objects: Seq<SnapshotV>) -> Seq<Seq<char>> {
    objects.map_values(|o: SnapshotV| o.kind)
}

/// The kinds, each indented.
pub open spec fn indented(v: Seq<Seq<char>>) -> Seq<Seq<char>> {
    v.map_values(|s: Seq<char>| "  "@ + s)
}

fn push_indented(out: &mut Vec<String>, v: &Vec<String>)
    ensures
        texts(final(out)@) == texts(old(out)@) + indented(texts(v@)),
{
    broadcast use texts_push;

    let ghost all = indented(texts(v@));
    let ghost first = texts(out@);
    let mut i: usize = 0;
    assert(first + all.take(0) =~= first);
    while i < v.len()
        invariant
            i <= v@.len(),
            all == indented(texts(v@)),
            texts(out@) == first + all.take(i as int),
        decreases v@.len() - i,
    {
        out.push(cat("  ", v[i].as_str()));
        assert(all[i as int] == "  "@ + v@[i as int]@);
        assert(first + all.take(i + 1) =~= (first + all.take(i as int)).push(all[i as int]));
        i += 1;
    }
    assert(all.take(i as int) =~= all);
}

/// What is printed of the kinds that there are.
pub open spec fn kinds_printed(objects: Seq<SnapshotV>) -> Seq<Seq<char>> {
    let kinds = sorted_unique(kinds_of(objects));
    if kinds.len() == 0 {
        seq!["No API objects found (is an instance running?)"@]
    } else {
        seq!["Available kinds:"@] + indented(kinds)
    }
}

/// What is printed of the kinds that there are: each once, in order.
pub fn print_kinds(objects: &Vec<ApiObjectSnapshot>) -> (r: Vec<String>)
    ensures
        texts(r@) == kinds_printed(snapshots_view(objects@)),
{
    broadcast use texts_push;

    let ghost all = kinds_of(snapshots_view(objects@));
    let mut kinds: Vec<String> = Vec::new();
    let mut i: usize = 0;
    assert(texts(kinds@) =~= all.take(0));
    while i < objects.len()
        invariant
            i <= objects@.len(),
            all == kinds_of(snapshots_view(objects@)),
            texts(kinds@) == all.take(i as int),
        decreases objects@.len() - i,
    {
        kinds.push(objects[i].kind.clone());
        assert(all[i as int] == objects@[i as int].kind@);
        assert(all.take(i + 1) =~= all.take(i as int).push(all[i as int]));
        i += 1;
    }
    assert(all.take(i as int) =~= all);
    let kinds = sort_unique(kinds);
    let mut out: Vec<String> = Vec::new();
    if kinds.len() == 0 {
        out.push(owned("No API objects found (is an instance running?)"));
        assert(texts(out@) =~= seq!["No API objects found (is an instance running?)"@]);
    } else {
        out.push(owned("Available kinds:"));
        assert(texts(out@) =~= seq!["Available kinds:"@]);
        push_indented(&mut out, &kinds);
    }
    out
}

/// The objects with a name.
pub open spec fn named_objects(objects: Seq<SnapshotV>, name: Seq<char>) -> Seq<SnapshotV>
    decreases objects.len(),
{
    if objects.len() == 0 {
        Seq::empty()
    } else if objects.last().name == name {
        named_objects(objects.drop_last(), name).push(objects.last())
    } else {
        named_objects(objects.drop_last(), name)
    }
}

/// The objects that were asked for.
pub open spec fn chosen(objects: Seq<SnapshotV>, name: Option<Seq<char>>) -> Seq<SnapshotV> {
    match name {
        Some(n) => named_objects(objects, n),
        None => objects,
    }
}

/// The objects as one JSON list.
pub open spec fn objects_json(objects: Seq<SnapshotV>) -> JsonV {
    JsonV::List(objects.map_values(|o: SnapshotV| o.object))
}

/// The row of an object in a list.
pub open spec fn object_row(o: SnapshotV) -> Seq<char> {
    padded(o.name, 28) + " "@ + o.kind
}

/// What is printed of objects.
pub open spec fn objects_printed(
    kind: Seq<char>,
    name: Option<Seq<char>>,
    objects: Seq<SnapshotV>,
    json: bool,
) -> Result<Seq<Seq<char>>, Seq<char>> {
    let v = chosen(objects, name);
    if v.len() == 0 {
        match name {
            Some(n) => Err(kind + " \""@ + n + "\" not found"@),
            None => Ok(seq!["No "@ + kind + " objects found"@]),
        }
    } else if json {
        if name is Some && v.len() == 1 {
            Ok(seq![json_laid_out(v[0].object)])
        } else {
            Ok(seq![json_laid_out(objects_json(v))])
        }
    } else {
        Ok(seq![padded("NAME"@, 28) + " "@ + "KIND"@] + v.map_values(|o: SnapshotV| object_row(o)))
    }
}

fn choose_objects(objects: &Vec<ApiObjectSnapshot>, name: Option<&str>) -> (r: Vec<
    ApiObjectSnapshot,
>)
    ensures
        snapshots_view(r@) == chosen(
            snapshots_view(objects@),
            match name {
                Some(n) => Some(n@),
                None => None,
            },
        ),
{
    let ghost all = snapshots_view(objects@);
    match name {
        None => crate::daemon::protocol::clone_snapshots(objects),
        Some(n) => {
            let mut r: Vec<ApiObjectSnapshot> = Vec::new();
            let mut i: usize = 0;
            assert(snapshots_view(r@) =~= named_objects(all.take(0), n@));
            while i < objects.len()
                invariant
                    i <= objects@.len(),
                    all == snapshots_view(objects@),
                    snapshots_view(r@) == named_objects(all.take(i as int), n@),
                decreases objects@.len() - i,
            {
                proof {
                    assert(all.take(i + 1).drop_last() =~= all.take(i as int));
                    assert(all.take(i + 1).last() == objects@[i as int]@);
                }
                if same(objects[i].name.as_str(), n) {
                    let ghost before = snapshots_view(r@);
                    let o = objects[i].clone();
                    r.push(o);
                    assert(snapshots_view(r@) =~= before.push(o@));
                }
                i += 1;
            }
            assert(all.take(i as int) =~= all);
            r
        },
    }
}

fn json_of_objects(objects: &Vec<ApiObjectSnapshot>) -> (r: Json)
    ensures
        r@ == objects_json(snapshots_view(objects@)),
{
    let ghost all = snapshots_view(objects@).map_values(|o: SnapshotV| o.object);
    let mut v: Vec<Json> = Vec::new();
    let mut i: usize = 0;
    assert(list_view(v@) =~= all.take(0));
    while i < objects.len()
        invariant
            i <= objects@.len(),
            all == snapshots_view(objects@).map_values(|o: SnapshotV| o.object),
            list_view(v@) == all.take(i as int),
        decreases objects@.len() - i,
    {
        let o = objects[i].object.clone();
        proof {
            list_view_push(v@, o);
            assert(all[i as int] == objects@[i as int].object@);
            assert(all.take(i + 1) =~= all.take(i as int).push(all[i as int]));
        }
        v.push(o);
        i += 1;
    }
    assert(all.take(i as int) =~= all);
    Json::List(v)
}

/// All objects as they are dumped.
pub fn dump_objects(objects: &Vec<ApiObjectSnapshot>) -> (r: String)
    ensures
        r@ == json_laid_out(objects_json(snapshots_view(objects@))),
{
    json_pretty(&json_of_objects(objects))
}

/// What is printed of the objects of a kind, all of them or those with a name: a list
/// of names, or the objects themselves as JSON, one that was named without a list
/// around it. A name without an object is an error.
pub fn print_objects(
    kind: &str,
    name: Option<&str>,
    objects: &Vec<ApiObjectSnapshot>,
    json: bool,
) -> (r: Result<Vec<String>, String>)
    ensures
        printed(r) == objects_printed(
            kind@,
            match name {
                Some(n) => Some(n@),
                None => None,
            },
            snapshots_view(objects@),
            json,
        ),
{
    broadcast use texts_push;

    let v = choose_objects(objects, name);
    let ghost all = snapshots_view(v@);
    let mut out: Vec<String> = Vec::new();
    if v.len() == 0 {
        match name {
            Some(n) => {
                let mut e = cat3(kind, " \"", n);
                e.append("\" not found");
                return Err(e);
            },
            None => {
                out.push(cat3("No ", kind, " objects found"));
                assert(texts(out@) =~= seq!["No "@ + kind@ + " objects found"@]);
                return Ok(out);
            },
        }
    }
    if json {
        if name.is_some() && v.len() == 1 {
            out.push(json_pretty(&v[0].object));
            assert(texts(out@) =~= seq![json_laid_out(all[0].object)]);
        } else {
            out.push(json_pretty(&json_of_objects(&v)));
            assert(texts(out@) =~= seq![json_laid_out(objects_json(all))]);
        }
        return Ok(out);
    }
    out.push(cat3(pad("NAME", 28).as_str(), " ", "KIND"));
    let ghost first = seq![padded("NAME"@, 28) + " "@ + "KIND"@];
    let ghost rows = all.map_values(|o: SnapshotV| object_row(o));
    let mut i: usize = 0;
    assert(texts(out@) =~= first + rows.take(0));
    while i < v.len()
        invariant
            i <= v@.len(),
            all == snapshots_view(v@),
            rows == all.map_values(|o: SnapshotV| object_row(o)),
            texts(out@) == first + rows.take(i as int),
        decreases v@.len() - i,
    {
        out.push(cat3(pad(v[i].name.as_str(), 28).as_str(), " ", v[i].kind.as_str()));
        assert(rows[i as int] == object_row(v@[i as int]@));
        assert(first + rows.take(i + 1) =~= (first + rows.take(i as int)).push(rows[i as int]));
        i += 1;
    }
    assert(rows.take(i as int) =~= rows);
    Ok(out)
}

/// The first object with a name.
pub open spec fn first_named(objects: Seq<SnapshotV>, name: Seq<char>) -> Option<SnapshotV>
    decreases objects.len(),
{
    if objects.len() == 0 {
        None
    } else if objects[0].name == name {
        Some(objects[0])
    } else {
        first_named(objects.drop_first(), name)
    }
}

/// A line that is printed where a value is a text.
pub open spec fn text_line(label: Seq<char>, v: JsonV) -> Seq<Seq<char>> {
    match as_text(v) {
        Some(s) => seq![label + s],
        None => Seq::empty(),
    }
}

/// What is printed of a part of an object, where it has it.
pub open spec fn part_lines(label: Seq<char>, v: Option<JsonV>) -> Seq<Seq<char>> {
    match v {
        Some(j) => seq![label + json_laid_out(j)],
        None => Seq::empty(),
    }
}

/// What is printed of an object in detail.
pub open spec fn object_described(o: SnapshotV) -> Seq<Seq<char>> {
    let meta = at(o.object, "metadata"@);
    seq!["Name:    "@ + o.name, "Kind:    "@ + o.kind] + text_line("UID:     "@, at(meta, "uid"@))
        + text_line("Version: "@, at(meta, "resourceVersion"@)) + part_lines(
        "Spec:\n"@,
        get(o.object, "spec"@),
    ) + part_lines("Status:\n"@, get(o.object, "status"@))
}

fn push_text(out: &mut Vec<String>, label: &str, v: &Json)
    ensures
        texts(final(out)@) == texts(old(out)@) + text_line(label@, v@),
{
    broadcast use texts_push;

    let ghost first = texts(out@);
    if let Some(s) = v.as_str() {
        out.push(cat(label, s));
    }
    assert(texts(out@) =~= first + text_line(label@, v@));
}

fn push_part(out: &mut Vec<String>, label: &str, object: &Json, key: &str)
    ensures
        texts(final(out)@) == texts(old(out)@) + part_lines(label@, get(object@, key@)),
{
    broadcast use texts_push;

    let ghost first = texts(out@);
    if let Some(v) = object.get(key) {
        out.push(cat(label, json_pretty(v).as_str()));
    }
    assert(texts(out@) =~= first + part_lines(label@, get(object@, key@)));
}

/// What is printed of one object in detail. A name without an object is an error.
pub fn describe_object(kind: &str, name: &str, objects: &Vec<ApiObjectSnapshot>) -> (r: Result<
    Vec<String>,
    String,
>)
    ensures
        printed(r) == (match first_named(snapshots_view(objects@), name@) {
            Some(o) => Ok(object_described(o)),
            None => Err(kind@ + " \""@ + name@ + "\" not found"@),
        }),
{
    broadcast use texts_push;

    let ghost all = snapshots_view(objects@);
    let mut i: usize = 0;
    assert(all.skip(0) =~= all);
    while i < objects.len()
        invariant
            i <= objects@.len(),
            all == snapshots_view(objects@),
            first_named(all, name@) == first_named(all.skip(i as int), name@),
        decreases objects@.len() - i,
    {
        let o = &objects[i];
        assert(all.skip(i as int)[0] == o@);
        assert(all.skip(i as int).drop_first() =~= all.skip(i + 1));
        if same(o.name.as_str(), name) {
            let mut out: Vec<String> = Vec::new();
            out.push(cat("Name:    ", o.name.as_str()));
            out.push(cat("Kind:    ", o.kind.as_str()));
            assert(texts(out@) =~= seq!["Name:    "@ + o@.name, "Kind:    "@ + o@.kind]);
            let meta = o.object.at("metadata");
            push_text(&mut out, "UID:     ", meta.at("uid"));
            push_text(&mut out, "Version: ", meta.at("resourceVersion"));
            push_part(&mut out, "Spec:\n", &o.object, "spec");
            push_part(&mut out, "Status:\n", &o.object, "status");
            return Ok(out);
        }
        i += 1;
    }
    let mut e = cat3(kind, " \"", name);
    e.append("\" not found");
    Err(e)
}

/// The addresses of the API servers of the instances of a project.
pub open spec fn addrs_of(instances: Seq<InstanceStateV>, dir: Seq<char>) -> Seq<Seq<char>>
    decreases instances.len(),
{
    if instances.len() == 0 {
        Seq::empty()
    } else {
        let rest = addrs_of(instances.drop_last(), dir);
        let i = instances.last();
        match opt_text(i.api_addr) {
            Some(a) => if i.dir == dir {
                rest.push(a)
            } else {
                rest
            },
            None => rest,
        }
    }
}

/// The addresses of the API servers of the instances of a project; an error where
/// there are none.
pub fn instance_api_addrs(state: &DashboardState, dir: &str) -> (r: Result<Vec<String>, String>)
    ensures
        ({
            let a = addrs_of(states_view(state.instances@), dir@);
            printed(r) == (if a.len() == 0 {
                Err(
                    "no running Starling instance with an API server found for "@ + dir@,
                )
            } else {
                Ok(a)
            })
        }),
{
    broadcast use texts_push;

    let ghost all = states_view(state.instances@);
    let mut out: Vec<String> = Vec::new();
    let mut i: usize = 0;
    assert(texts(out@) =~= addrs_of(all.take(0), dir@));
    while i < state.instances.len()
        invariant
            i <= state.instances@.len(),
            all == states_view(state.instances@),
            texts(out@) == addrs_of(all.take(i as int), dir@),
        decreases state.instances@.len() - i,
    {
        let inst = &state.instances[i];
        proof {
            assert(all.take(i + 1).drop_last() =~= all.take(i as int));
            assert(all.take(i + 1).last() == inst@);
        }
        if let Some(a) = &inst.api_addr {
            if same(inst.dir.as_str(), dir) {
                out.push(a.clone());
            }
        }
        i += 1;
    }
    assert(all.take(i as int) =~= all);
    if out.len() == 0 {
        Err(cat("no running Starling instance with an API server found for ", dir))
    } else {
        Ok(out)
    }
}

/// A request to an API server, with its body.
pub open spec fn api_request_text(
    addr: Seq<char>,
    method: Seq<char>,
    path: Seq<char>,
    body: Option<JsonV>,
) -> Seq<char> {
    let start = method + " "@ + path + " HTTP/1.1\r\nHost: "@ + addr
        + "\r\nConnection: close\r\n"@;
    match body {
        Some(j) => start + "Content-Type: application/json\r\nContent-Length: "@ + dec(
            encode_utf8(json_written(j)).len(),
        ) + "\r\n\r\n"@ + json_written(j),
        None => start + "\r\n"@,
    }
}

/// A request to an API server, with its body.
pub fn api_request(addr: &str, method: &str, path: &str, body: Option<&Json>) -> (r: String)
    ensures
        r@ == api_request_text(
            addr@,
            method@,
            path@,
            match body {
                Some(j) => Some(j@),
                None => None,
            },
        ),
{
    let mut r = cat3(method, " ", path);
    r.append(" HTTP/1.1\r\nHost: ");
    r.append(addr);
    r.append("\r\nConnection: close\r\n");
    match body {
        Some(j) => {
            let text = json_text(j);
            r.append("Content-Type: application/json\r\nContent-Length: ");
            r.append(decimal(text.as_str().as_bytes().len() as u64).as_str());
            r.append("\r\n\r\n");
            r.append(text.as_str());
        },
        None => {
            r.append("\r\n");
        },
    }
    r
}

/// What stands before the blank line of a response, and behind it.
pub open spec fn response_parts(text: Seq<char>) -> (Seq<char>, Seq<char>) {
    match split_once(text, "\r\n\r\n"@) {
        Some(p) => p,
        None => (text, Seq::empty()),
    }
}

/// The status in a response, if there is one.
pub open spec fn response_status(head: Seq<char>) -> Option<nat> {
    let l = lines(head);
    if l.len() == 0 || words(l[0]).len() < 2 {
        None
    } else {
        parsed(words(l[0])[1], 65535)
    }
}

/// The JSON in a response; null where there is none.
pub open spec fn response_json(rest: Seq<char>) -> JsonV {
    let t = trim(rest);
    if t.len() == 0 {
        JsonV::Null
    } else {
        match json_read(t) {
            Ok(j) => j,
            Err(_) => JsonV::Null,
        }
    }
}

/// Reads a response of an API server: its status, and the JSON that it holds.
pub fn api_response(addr: &str, bytes: &Vec<u8>) -> (r: Result<(u16, Json), String>)
    ensures
        ({
            let (head, rest) = response_parts(lossy(bytes@));
            match response_status(head) {
                Some(n) => r is Ok && (r->Ok_0).0 == n && (r->Ok_0).1@ == response_json(rest),
                None => r is Err && r->Err_0@ == "malformed HTTP response from "@ + addr@,
            }
        }),
{
    let text = lossy_text(bytes);
    proof {
        reveal_strlit("\r\n\r\n");
    }
    let (head, rest) = match cut(text.as_str(), "\r\n\r\n") {
        Some(p) => p,
        None => {
            let e = String::new();
            assert(e@ =~= Seq::empty());
            (text, e)
        },
    };
    let l = lines_of(head.as_str());
    let mut status: Option<u64> = None;
    if l.len() > 0 {
        assert(texts(l@)[0] == l@[0]@);
        let w = words_of(l[0].as_str());
        if w.len() >= 2 {
            assert(texts(w@)[1] == w@[1]@);
            status = parse_uint(w[1].as_str(), 65535);
        }
    }
    match status {
        None => Err(cat("malformed HTTP response from ", addr)),
        Some(n) => {
            let t = trimmed(rest.as_str());
            let json = if t.as_str().is_empty() {
                Json::Null
            } else {
                match parse_json(t.as_str()) {
                    Ok(j) => j,
                    Err(_) => Json::Null,
                }
            };
            Ok((n as u16, json))
        },
    }
}

/// The API objects in documents, or what is wrong with the first that is none. Empty
/// documents are left out.
pub open spec fn api_objects(docs: Seq<Result<serde_yaml::Value, Seq<char>>>) -> Result<
    Seq<JsonV>,
    Seq<char>,
>
    decreases docs.len(),
{
    if docs.len() == 0 {
        Ok(Seq::empty())
    } else {
        match api_objects(docs.drop_last()) {
            Err(e) => Err(e),
            Ok(v) => match docs.last() {
                Err(e) => Err("parse: "@ + e),
                Ok(y) => if untagged(yaml_contents(y)) is Null {
                    Ok(v)
                } else {
                    match yaml_as_json(y) {
                        Ok(j) => Ok(v.push(j)),
                        Err(e) => Err("convert: "@ + e),
                    }
                },
            },
        }
    }
}

proof fn error_stays(docs: Seq<Result<serde_yaml::Value, Seq<char>>>, i: int)
    requires
        0 <= i <= docs.len(),
        api_objects(docs.take(i)) is Err,
    ensures
        api_objects(docs) == api_objects(docs.take(i)),
    decreases docs.len() - i,
{
    if i < docs.len() {
        assert(docs.take(i + 1).drop_last() =~= docs.take(i));
        error_stays(docs, i + 1);
    } else {
        assert(docs.take(i) =~= docs);
    }
}

/// The API objects in a text: one or more YAML or JSON documents. Empty documents are
/// left out.
pub fn parse_api_documents(raw: &str) -> (r: Result<Vec<Json>, String>)
    ensures
        match r {
            Ok(v) => api_objects(strict_docs(raw@)) == Ok::<Seq<JsonV>, Seq<char>>(
                list_view(v@),
            ),
            Err(e) => api_objects(strict_docs(raw@)) == Err::<Seq<JsonV>, Seq<char>>(
                e@,
            ),
        },
{
    let docs = documents_to_error(raw);
    let ghost all = doc_views(docs@);
    let mut out: Vec<Json> = Vec::new();
    let mut i: usize = 0;
    assert(all.take(0).len() == 0);
    assert(list_view(out@) =~= Seq::empty());
    while i < docs.len()
        invariant
            i <= docs@.len(),
            all == strict_docs(raw@),
            all == doc_views(docs@),
            api_objects(all.take(i as int)) == Ok::<Seq<JsonV>, Seq<char>>(list_view(out@)),
        decreases docs@.len() - i,
    {
        proof {
            assert(all.take(i + 1).drop_last() =~= all.take(i as int));
            assert(all.take(i + 1).last() == all[i as int]);
            assert(all[i as int] == doc_view(docs@[i as int]));
        }
        match &docs[i] {
            Err(e) => {
                proof {
                    error_stays(all, i + 1);
                }
                return Err(cat("parse: ", e.as_str()));
            },
            Ok(y) => {
                if !yaml_of_value(y).is_null() {
                    match yaml_to_json(y) {
                        Ok(v) => {
                            let j = json_of_value(v);
                            proof {
                                list_view_push(out@, j);
                            }
                            out.push(j);
                        },
                        Err(e) => {
                            proof {
                                error_stays(all, i + 1);
                            }
                            return Err(cat("convert: ", e.as_str()));
                        },
                    }
                }
            },
        }
        i += 1;
    }
    assert(all.take(i as int) =~= all);
    Ok(out)
}

/// The kind and the name of an API object, or what it lacks.
pub open spec fn kind_and_name(o: JsonV) -> Result<(Seq<char>, Seq<char>), Seq<char>> {
    match as_text(at(o, "kind"@)) {
        None => Err("object missing 'kind'"@),
        Some(kind) => match as_text(at(at(o, "metadata"@), "name"@)) {
            None => Err(kind + " object missing metadata.name"@),
            Some(name) => Ok((kind, name)),
        },
    }
}

/// The kind and the name of an API object, or what it lacks.
pub fn object_kind_name(obj: &Json) -> (r: Result<(String, String), String>)
    ensures
        match r {
            Ok((k, n)) => kind_and_name(obj@) == Ok::<(Seq<char>, Seq<char>), Seq<char>>((k@, n@)),
            Err(e) => kind_and_name(obj@) == Err::<(Seq<char>, Seq<char>), Seq<char>>(e@),
        },
{
    match obj.at("kind").as_str() {
        None => Err(owned("object missing 'kind'")),
        Some(kind) => match obj.at("metadata").at("name").as_str() {
            None => Err(cat(kind, " object missing metadata.name")),
            Some(name) => Ok((owned(kind), owned(name))),
        },
    }
}

/// What the status of a write means.
pub open spec fn write_report(
    status: u16,
    kind: Seq<char>,
    name: Seq<char>,
    verb: Seq<char>,
) -> Result<Seq<char>, Seq<char>> {
    let object = kind + "/"@ + name;
    if status == 200 || status == 201 {
        Ok(object + " "@ + verb)
    } else if status == 409 {
        Err(object + " already exists"@)
    } else if status == 404 {
        Err(object + " not found"@)
    } else if status == 400 {
        Err(object + ": bad request"@)
    } else {
        Err(object + ": unexpected status "@ + dec(status as nat))
    }
}

/// What the status of a write means: a line to print, or an error.
pub fn report_write(status: u16, kind: &str, name: &str, verb: &str) -> (r: Result<String, String>)
    ensures
        match r {
            Ok(s) => write_report(status, kind@, name@, verb@) == Ok::<Seq<char>, Seq<char>>(s@),
            Err(e) => write_report(status, kind@, name@, verb@) == Err::<Seq<char>, Seq<char>>(e@),
        },
{
    let mut s = cat3(kind, "/", name);
    if status == 200 || status == 201 {
        s.append(" ");
        s.append(verb);
        return Ok(s);
    }
    if status == 409 {
        s.append(" already exists");
    } else if status == 404 {
        s.append(" not found");
    } else if status == 400 {
        s.append(": bad request");
    } else {
        s.append(": unexpected status ");
        s.append(decimal(status as u64).as_str());
    }
    Err(s)
}

/// The path of the objects of a kind.
pub fn collection_path(kind: &str) -> (r: String)
    ensures
        r@ == "/api/v1alpha1/"@ + kind@,
{
    cat("/api/v1alpha1/", kind)
}

/// The path of an object.
pub fn object_path(kind: &str, name: &str) -> (r: String)
    ensures
        r@ == "/api/v1alpha1/"@ + kind@ + "/"@ + name@,
{
    cat(cat3("/api/v1alpha1/", kind, "/").as_str(), name)
}

/// A request that writes an object, and what it is called when it succeeds.
#[derive(Debug, PartialEq)]
pub struct WriteRequest {
    pub method: &'static str,
    pub path: String,
    pub verb: &'static str,
}

/// The request that creates an object.
pub open spec fn creates(w: WriteRequest, kind: Seq<char>) -> bool {
    w.method@ == "POST"@ && w.path@ == "/api/v1alpha1/"@ + kind && w.verb@ == "created"@
}

/// The request that replaces an object.
pub open spec fn replaces(w: WriteRequest, kind: Seq<char>, name: Seq<char>) -> bool {
    w.method@ == "PUT"@ && w.path@ == "/api/v1alpha1/"@ + kind + "/"@ + name && w.verb@
        == "configured"@
}

/// The first request that applies an object: it is created, or else replaced where it
/// exists.
pub fn first_write(create_only: bool, kind: &str, name: &str) -> (r: WriteRequest)
    ensures
        if create_only {
            creates(r, kind@)
        } else {
            replaces(r, kind@, name@)
        },
{
    if create_only {
        WriteRequest { method: "POST", path: collection_path(kind), verb: "created" }
    } else {
        WriteRequest { method: "PUT", path: object_path(kind, name), verb: "configured" }
    }
}

/// The request that follows the first one that applies an object: one that does not
/// exist is created.
pub fn next_write(create_only: bool, kind: &str, status: u16) -> (r: Option<WriteRequest>)
    ensures
        match r {
            Some(w) => !create_only && status == 404 && creates(w, kind@),
            None => create_only || status != 404,
        },
{
    if !create_only && status == 404 {
        Some(WriteRequest { method: "POST", path: collection_path(kind), verb: "created" })
    } else {
        None
    }
}

/// The value at the end of a path of keys.
pub open spec fn value_at(o: JsonV, keys: Seq<Seq<char>>) -> Option<JsonV>
    decreases keys.len(),
{
    if keys.len() == 0 {
        Some(o)
    } else {
        match get(o, keys[0]) {
            Some(v) => value_at(v, keys.drop_first()),
            None => None,
        }
    }
}

/// The text of a value: a text without quotes, anything else as JSON.
pub open spec fn plain_text(v: JsonV) -> Seq<char> {
    match v {
        JsonV::Text(s) => s,
        other => json_written(other),
    }
}

/// The text of the value at a path of keys with dots between them.
pub open spec fn path_text(o: JsonV, path: Seq<char>) -> Option<Seq<char>> {
    match value_at(o, split(path, "."@)) {
        Some(v) => Some(plain_text(v)),
        None => None,
    }
}

/// The text of the value at a path of keys with dots between them.
pub fn json_path_str(obj: &Json, path: &str) -> (r: Option<String>)
    ensures
        opt_text(r) == path_text(obj@, path@),
{
    proof {
        reveal_strlit(".");
    }
    let keys = pieces(path, ".");
    let ghost all = texts(keys@);
    let mut cur: &Json = obj;
    let mut i: usize = 0;
    assert(all.skip(0) =~= all);
    while i < keys.len()
        invariant
            i <= keys@.len(),
            all == texts(keys@),
            all == split(path@, "."@),
            value_at(obj@, all) == value_at(cur@, all.skip(i as int)),
        decreases keys@.len() - i,
    {
        assert(all.skip(i as int)[0] == keys@[i as int]@);
        assert(all.skip(i as int).drop_first() =~= all.skip(i + 1));
        match cur.get(keys[i].as_str()) {
            Some(v) => {
                cur = v;
            },
            None => {
                return None;
            },
        }
        i += 1;
    }
    assert(all.skip(i as int).len() == 0);
    match cur.as_str() {
        Some(s) => Some(owned(s)),
        None => Some(json_text(cur)),
    }
}

/// What is waited for: a field, and the value that it is to have.
pub open spec fn condition(text: Seq<char>) -> (Seq<char>, Seq<char>) {
    match split_once(text, "="@) {
        Some((f, v)) => (trim(f), trim(v)),
        None => (trim(text), Seq::empty()),
    }
}

/// What is waited for: a field, and the value that it is to have.
pub fn wait_condition(text: &str) -> (r: (String, String))
    ensures
        (r.0@, r.1@) == condition(text@),
{
    proof {
        reveal_strlit("=");
    }
    match cut(text, "=") {
        Some((f, v)) => (trimmed(f.as_str()), trimmed(v.as_str())),
        None => {
            let e = String::new();
            assert(e@ =~= Seq::empty());
            (trimmed(text), e)
        },
    }
}

/// Whether what is waited for holds of an object: that it exists, or that the field
/// has the value, where a field that is not there counts as empty.
pub open spec fn wait_over(status: u16, body: JsonV, field: Seq<char>, expected: Seq<char>) -> bool {
    &&& status == 200
    &&& (field.len() == 0 || (match path_text(body, field) {
        Some(s) => s,
        None => Seq::empty(),
    }) == expected)
}

/// The line that is printed once what is waited for holds.
pub fn wait_met(
    kind: &str,
    name: &str,
    status: u16,
    body: &Json,
    field: &str,
    expected: &str,
) -> (r: Option<String>)
    ensures
        match r {
            Some(l) => wait_over(status, body@, field@, expected@) && l@ == kind@ + "/"@ + name@ + (
            if field@.len() == 0 {
                " exists"@
            } else {
                " "@ + field@ + "="@ + expected@
            }),
            None => !wait_over(status, body@, field@, expected@),
        },
{
    if status != 200 {
        return None;
    }
    let mut l = cat3(kind, "/", name);
    if field.is_empty() {
        l.append(" exists");
        return Some(l);
    }
    let value = match json_path_str(body, field) {
        Some(s) => s,
        None => {
            let e = String::new();
            assert(e@ =~= Seq::empty());
            e
        },
    };
    if !same(value.as_str(), expected) {
        return None;
    }
    l.append(" ");
    l.append(field);
    l.append("=");
    l.append(expected);
    assert(l@ =~= kind@ + "/"@ + name@ + (" "@ + field@ + "="@ + expected@));
    Some(l)
}

/// The error of a wait that took too long.
pub fn wait_timed_out(kind: &str, name: &str, condition: &str, timeout: u64) -> (r: String)
    ensures
        r@ == "timed out after "@ + dec(timeout as nat) + "s waiting for "@ + kind@ + "/"@ + name@
            + " "@ + condition@,
{
    let mut r = cat3("timed out after ", decimal(timeout).as_str(), "s waiting for ");
    r.append(kind);
    r.append("/");
    r.append(name);
    r.append(" ");
    r.append(condition);
    r
}

/// The first known kind that is written as the text, in upper or lower case.
pub open spec fn resolved_kind(kinds: Seq<Seq<char>>, kind: Seq<char>) -> Option<Seq<char>>
    decreases kinds.len(),
{
    if kinds.len() == 0 {
        None
    } else if lowercase(kinds[0]) == lowercase(kind) {
        Some(kinds[0])
    } else {
        resolved_kind(kinds.drop_first(), kind)
    }
}

/// The known kind that is written as the text, in upper or lower case.
pub fn resolve_kind(kind: &str) -> (r: Option<&'static str>)
    ensures
        match r {
            Some(k) => resolved_kind(all_kinds(), kind@) == Some(k@),
            None => resolved_kind(all_kinds(), kind@) is None,
        },
{
    let kinds = known_kinds();
    let wanted = lowered(kind);
    let ghost all = strs(kinds@);
    let mut i: usize = 0;
    assert(all.skip(0) =~= all);
    while i < kinds.len()
        invariant
            i <= kinds@.len(),
            all == strs(kinds@),
            all == all_kinds(),
            wanted@ == lowercase(kind@),
            resolved_kind(all, kind@) == resolved_kind(all.skip(i as int), kind@),
        decreases kinds@.len() - i,
    {
        assert(all.skip(i as int)[0] == kinds@[i as int]@);
        assert(all.skip(i as int).drop_first() =~= all.skip(i + 1));
        if same(lowered(kinds[i]).as_str(), wanted.as_str()) {
            return Some(kinds[i]);
        }
        i += 1;
    }
    None
}

/// What is printed of a kind, or of all of them.
pub open spec fn explained(kind: Option<Seq<char>>) -> Result<Seq<Seq<char>>, Seq<char>> {
    match kind {
        None => Ok(
            seq!["Object kinds (use `starling explain <kind>`):"@] + indented(all_kinds()),
        ),
        Some(k) => match resolved_kind(all_kinds(), k) {
            None => Err(
                "unknown kind "@ + debugged(k) + " (try `starling explain` to list kinds)"@,
            ),
            Some(name) => Ok(
                seq![name + " (tilt.dev/v1alpha1)"@, "spec fields:"@] + indented(
                    match kind_fields(name) {
                        Some(f) => f,
                        None => Seq::empty(),
                    },
                ),
            ),
        },
    }
}

fn push_strs(out: &mut Vec<String>, v: &Vec<&'static str>)
    ensures
        texts(final(out)@) == texts(old(out)@) + indented(strs(v@)),
{
    broadcast use texts_push;

    let ghost all = indented(strs(v@));
    let ghost first = texts(out@);
    let mut i: usize = 0;
    assert(first + all.take(0) =~= first);
    while i < v.len()
        invariant
            i <= v@.len(),
            all == indented(strs(v@)),
            texts(out@) == first + all.take(i as int),
        decreases v@.len() - i,
    {
        out.push(cat("  ", v[i]));
        assert(all[i as int] == "  "@ + v@[i as int]@);
        assert(first + all.take(i + 1) =~= (first + all.take(i as int)).push(all[i as int]));
        i += 1;
    }
    assert(all.take(i as int) =~= all);
}

/// What is printed of a kind, or of all of them: which fields objects are given.
pub fn explain(kind: Option<&str>) -> (r: Result<Vec<String>, String>)
    ensures
        printed(r) == explained(
            match kind {
                Some(k) => Some(k@),
                None => None,
            },
        ),
{
    broadcast use texts_push;

    let mut out: Vec<String> = Vec::new();
    match kind {
        None => {
            out.push(owned("Object kinds (use `starling explain <kind>`):"));
            assert(texts(out@) =~= seq!["Object kinds (use `starling explain <kind>`):"@]);
            push_strs(&mut out, &known_kinds());
            Ok(out)
        },
        Some(k) => match resolve_kind(k) {
            None => Err(
                cat3(
                    "unknown kind ",
                    debug_text(k).as_str(),
                    " (try `starling explain` to list kinds)",
                ),
            ),
            Some(name) => {
                out.push(cat(name, " (tilt.dev/v1alpha1)"));
                out.push(owned("spec fields:"));
                assert(texts(out@) =~= seq![name@ + " (tilt.dev/v1alpha1)"@, "spec fields:"@]);
                match spec_fields(name) {
                    Some(f) => {
                        push_strs(&mut out, &f);
                    },
                    None => {
                        assert(texts(out@) =~= texts(out@) + indented(Seq::empty()));
                    },
                }
                Ok(out)
            },
        },
    }
}

} // verus!
