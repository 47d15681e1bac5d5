//! Talking to a cluster without `kubectl`: which objects requests go to, and what
//! their outcomes mean.

use vstd::prelude::*;
use vstd::string::*;

use crate::json::{as_text, at, text_or, Json, JsonV};
use crate::text::{
    cat, cat3, cut, lossy, lossy_text, owned, same, split_once, texts, trim, trimmed,
};
use crate::trees::{
    doc_view, doc_views, documents_to_error, json_of_value, strict_docs, untagged, yaml_as_json,
    yaml_contents, yaml_of_value, yaml_to_json,
};

verus! {

/// Whether the cluster is talked to without `kubectl`, given the variable that
/// switches it on.
pub fn use_kube_rs(variable: Option<&str>) -> (r: bool)
    ensures
        r == (variable is Some && variable->0@ == "1"@),
{
    match variable {
        Some(v) => same(v, "1"),
        None => false,
    }
}

/// The group and the version of an API version: the core group has no name.
pub open spec fn group_and_version(api_version: Seq<char>) -> (Seq<char>, Seq<char>) {
    match split_once(api_version, "/"@) {
        Some(p) => p,
        None => (Seq::empty(), api_version),
    }
}

/// The group and the version of an API version.
pub fn api_group_version(api_version: &str) -> (r: (String, String))
    ensures
        (r.0@, r.1@) == group_and_version(api_version@),
{
    proof {
        reveal_strlit("/");
    }
    match cut(api_version, "/") {
        Some(p) => p,
        None => {
            let e = String::new();
            assert(e@ =~= Seq::empty());
            (e, owned(api_version))
        },
    }
}

/// An object of the cluster as `kube` holds it.
#[verifier::external_type_specification]
#[verifier::external_body]
pub struct ExDynamicObject(kube::api::DynamicObject);

/// The object of `kube` that `serde_yaml::from_value` makes of a value, or the text of
/// its error.
pub uninterp spec fn yaml_object(v: serde_yaml::Value) -> Result<kube::api::DynamicObject, Seq<char>>;

/// `serde_yaml::from_value` into an object of `kube`. Nothing is said of which values
/// are objects.
#[verifier::external_body]
fn object_of_yaml(v: &serde_yaml::Value) -> (r: Result<kube::api::DynamicObject, String>)
    ensures
        match r {
            Ok(o) => yaml_object(*v) == Ok::<kube::api::DynamicObject, Seq<char>>(o),
            Err(e) => yaml_object(*v) == Err::<kube::api::DynamicObject, Seq<char>>(e@),
        },
{
    serde_yaml::from_value(v.clone()).map_err(|e| e.to_string())
}

/// A document to apply: what it says, and the object that is sent.
#[derive(Debug)]
pub struct ApplyDoc {
    pub doc: Json,
    pub object: kube::api::DynamicObject,
}

/// The contents of a list of documents to apply.
pub open spec fn docs_view(v: Seq<ApplyDoc>) -> Seq<(JsonV, kube::api::DynamicObject)> {
    v.map_values(|d: ApplyDoc| (d.doc@, d.object))
}

/// The documents to apply, in order, empty ones left out; or what is wrong with the
/// first that cannot be read or is no object.
pub open spec fn to_apply(docs: Seq<Result<serde_yaml::Value, Seq<char>>>) -> Result<
    Seq<(JsonV, kube::api::DynamicObject)>,
    Seq<char>,
>
    decreases docs.len(),
{
    if docs.len() == 0 {
        Ok(Seq::empty())
    } else {
        match to_apply(docs.drop_last()) {
            Err(e) => Err(e),
            Ok(v) => match docs.last() {
                Err(e) => Err("parse yaml: "@ + e),
                Ok(y) => if untagged(yaml_contents(y)) is Null {
                    Ok(v)
                } else {
                    match (yaml_object(y), yaml_as_json(y)) {
                        (Err(e), _) => Err("parse object: "@ + e),
                        (Ok(_), Err(e)) => Err("parse object: "@ + e),
                        (Ok(o), Ok(j)) => Ok(v.push((j, o))),
                    }
                },
            },
        }
    }
}

proof fn error_stays(docs: Seq<Result<serde_yaml::Value, Seq<char>>>, i: int)
    requires
        0 <= i <= docs.len(),
        to_apply(docs.take(i)) is Err,
    ensures
        to_apply(docs) == to_apply(docs.take(i)),
    decreases docs.len() - i,
{
    if i < docs.len() {
        assert(docs.take(i + 1).drop_last() =~= docs.take(i));
        error_stays(docs, i + 1);
    } else {
        assert(docs.take(i) =~= docs);
    }
}

/// One document to apply.
fn apply_doc(y: &serde_yaml::Value) -> (r: Result<ApplyDoc, String>)
    ensures
        match (yaml_object(*y), yaml_as_json(*y)) {
            (Err(e), _) => r is Err && r->Err_0@ == "parse object: "@ + e,
            (Ok(_), Err(e)) => r is Err && r->Err_0@ == "parse object: "@ + e,
            (Ok(o), Ok(j)) => r is Ok && r->Ok_0.doc@ == j && r->Ok_0.object == o,
        },
{
    match object_of_yaml(y) {
        Err(e) => Err(cat("parse object: ", e.as_str())),
        Ok(object) => match yaml_to_json(y) {
            Err(e) => Err(cat("parse object: ", e.as_str())),
            Ok(v) => Ok(ApplyDoc { doc: json_of_value(v), object }),
        },
    }
}

/// The documents of a text that are applied, in order, empty ones left out. The first
/// that cannot be read, or is no object, is an error.
pub fn documents_to_apply(yaml: &str) -> (r: Result<Vec<ApplyDoc>, String>)
    ensures
        match to_apply(strict_docs(yaml@)) {
            Ok(v) => r is Ok && docs_view(r->Ok_0@) == v,
            Err(e) => r is Err && r->Err_0@ == e,
        },
{
    let docs = documents_to_error(yaml);
    let ghost all = doc_views(docs@);
    let mut out: Vec<ApplyDoc> = Vec::new();
    let mut i: usize = 0;
    assert(all.take(0).len() == 0);
    assert(docs_view(out@) =~= Seq::empty());
    while i < docs.len()
        invariant
            i <= docs@.len(),
            all == strict_docs(yaml@),
            all == doc_views(docs@),
            to_apply(all.take(i as int)) == Ok::<
                Seq<(JsonV, kube::api::DynamicObject)>,
                Seq<char>,
            >(docs_view(out@)),
        decreases docs@.len() - i,
    {
        proof {
            assert(all.take(i + 1).drop_last() =~= all.take(i as int));
            assert(all.take(i + 1).last() == all[i as int]);
            assert(all[i as int] == doc_view(docs@[i as int]));
        }
        match &docs[i] {
            Err(e) => {
                proof {
                    error_stays(all, i + 1);
                }
                return Err(cat("parse yaml: ", e.as_str()));
            },
            Ok(y) => {
                if !yaml_of_value(y).is_null() {
                    match apply_doc(y) {
                        Ok(d) => {
                            let ghost before = out@;
                            out.push(d);
                            assert(docs_view(out@) =~= docs_view(before).push((d.doc@, d.object)));
                        },
                        Err(e) => {
                            proof {
                                error_stays(all, i + 1);
                            }
                            return Err(e);
                        },
                    }
                }
            },
        }
        i += 1;
    }
    assert(all.take(i as int) =~= all);
    Ok(out)
}

/// The type of an object, by which the cluster finds where it is applied to.
#[derive(Debug, PartialEq)]
pub struct ApplyType {
    pub api_version: String,
    pub group: String,
    pub version: String,
    pub kind: String,
}

/// The API version and the kind of an object, where it has both.
pub open spec fn type_of(doc: JsonV) -> Option<(Seq<char>, Seq<char>)> {
    match (as_text(at(doc, "apiVersion"@)), as_text(at(doc, "kind"@))) {
        (Some(v), Some(k)) => Some((v, k)),
        _ => None,
    }
}

/// The type of an object. One without an API version or a kind is an error.
pub fn apply_type(doc: &Json) -> (r: Result<ApplyType, String>)
    ensures
        match type_of(doc@) {
            Some((v, k)) => r is Ok && r->Ok_0.api_version@ == v && r->Ok_0.kind@ == k && (
            r->Ok_0.group@,
            r->Ok_0.version@,
            ) == group_and_version(v),
            None => r is Err && r->Err_0@ == "object missing apiVersion/kind"@,
        },
{
    match (doc.at("apiVersion").as_str(), doc.at("kind").as_str()) {
        (Some(v), Some(k)) => {
            let (group, version) = api_group_version(v);
            Ok(ApplyType { api_version: owned(v), group, version, kind: owned(k) })
        },
        _ => Err(owned("object missing apiVersion/kind")),
    }
}

/// Where an object is applied to.
#[derive(Debug, PartialEq)]
pub struct ApplyTarget {
    pub kind: String,
    /// `default` where the object names none.
    pub namespace: String,
    pub name: String,
}

/// Where an object is applied to, as its kind, namespace and name, given whether the
/// cluster knows its type; or what is wrong, in the order in which it is looked at.
pub open spec fn target_of(doc: JsonV, known: bool) -> Result<
    (Seq<char>, Seq<char>, Seq<char>),
    Seq<char>,
> {
    let meta = at(doc, "metadata"@);
    match type_of(doc) {
        None => Err("object missing apiVersion/kind"@),
        Some((v, k)) => if !known {
            Err("unknown resource for "@ + v + "/"@ + k)
        } else {
            match as_text(at(meta, "name"@)) {
                None => Err(k + " object missing metadata.name"@),
                Some(n) => Ok((k, text_or(at(meta, "namespace"@), "default"@), n)),
            }
        },
    }
}

/// Where an object is applied to, given whether the cluster knows its type.
pub fn apply_target(doc: &Json, known: bool) -> (r: Result<ApplyTarget, String>)
    ensures
        match target_of(doc@, known) {
            Ok((k, ns, n)) => r is Ok && r->Ok_0.kind@ == k && r->Ok_0.namespace@ == ns
                && r->Ok_0.name@ == n,
            Err(e) => r is Err && r->Err_0@ == e,
        },
{
    let types = match apply_type(doc) {
        Ok(t) => t,
        Err(e) => return Err(e),
    };
    if !known {
        let r = cat3("unknown resource for ", types.api_version.as_str(), "/");
        return Err(cat(r.as_str(), types.kind.as_str()));
    }
    let meta = doc.at("metadata");
    match meta.at("name").as_str() {
        None => Err(cat(types.kind.as_str(), " object missing metadata.name")),
        Some(n) => Ok(
            ApplyTarget {
                kind: types.kind,
                namespace: owned(meta.at("namespace").str_or("default")),
                name: owned(n),
            },
        ),
    }
}

/// What a `kubectl` that ended means: where it failed, what it printed is the error.
pub fn kubectl_ended(success: bool, stderr: &Vec<u8>) -> (r: Result<(), String>)
    ensures
        if success {
            r is Ok
        } else {
            r is Err && r->Err_0@ == trim(lossy(stderr@))
        },
{
    if success {
        Ok(())
    } else {
        Err(trimmed(lossy_text(stderr).as_str()))
    }
}

/// How a command in a pod ended, as far as it is known: its status and a message.
#[derive(Debug)]
pub struct ExecStatus {
    pub status: Option<String>,
    pub message: Option<String>,
}

/// What the end of a command in a pod means: only one that says so succeeded.
pub fn attach_succeeded(status: &Option<ExecStatus>) -> (r: Result<(), String>)
    ensures
        match *status {
            None => r is Err && r->Err_0@ == "exec produced no terminal status"@,
            Some(s) => if s.status is Some && s.status->0@ == "Success"@ {
                r is Ok
            } else {
                r is Err && r->Err_0@ == "exec failed: "@ + (match s.message {
                    Some(m) => m@,
                    None => "non-zero exit"@,
                })
            },
        },
{
    match status {
        None => Err(owned("exec produced no terminal status")),
        Some(s) => {
            let ok = match &s.status {
                Some(t) => same(t.as_str(), "Success"),
                None => false,
            };
            if ok {
                return Ok(());
            }
            match &s.message {
                Some(m) => Err(cat("exec failed: ", m.as_str())),
                None => Err(cat("exec failed: ", "non-zero exit")),
            }
        },
    }
}

/// The command in a pod that writes a file from what it is sent.
pub fn copy_command(remote: &str) -> (r: Vec<String>)
    ensures
        texts(r@) == seq!["sh"@, "-c"@, "cat > "@ + remote@],
{
    let mut r: Vec<String> = Vec::new();
    r.push(owned("sh"));
    r.push(owned("-c"));
    r.push(cat("cat > ", remote));
    assert(texts(r@) =~= seq!["sh"@, "-c"@, "cat > "@ + remote@]);
    r
}

} // verus!
