//! Reading JSON and YAML.

use serde_json::Value as JsonValue;

use vstd::prelude::*;
use vstd::string::*;
use vstd::utf8::encode_utf8;

use crate::json::{Json, JsonV};
use crate::text::{opt_text, same};

verus! {

/// A value as `serde_json` reads it.
#[verifier::external_type_specification]
#[verifier::external_body]
pub struct ExJsonValue(serde_json::Value);

/// A value as `serde_yaml` reads it.
#[verifier::external_type_specification]
#[verifier::external_body]
pub struct ExYamlValue(serde_yaml::Value);

/// What a value of `serde_json` holds.
pub uninterp spec fn json_contents(v: serde_json::Value) -> JsonV;

/// What `serde_json::from_str` reads from a text, or the text of its error.
pub uninterp spec fn json_read(text: Seq<char>) -> Result<JsonV, Seq<char>>;

/// What `serde_json::from_slice` reads from bytes, or the text of its error.
pub uninterp spec fn json_read_bytes(bytes: Seq<u8>) -> Result<JsonV, Seq<char>>;

/// `serde_json::from_str` into a value. Nothing is said of the syntax of JSON.
#[verifier::external_body]
fn read_value(text: &str) -> (r: Result<serde_json::Value, String>)
    ensures
        match r {
            Ok(v) => json_read(text@) == Ok::<JsonV, Seq<char>>(json_contents(v)),
            Err(e) => json_read(text@) == Err::<JsonV, Seq<char>>(e@),
        },
{
    serde_json::from_str(text).map_err(|e| e.to_string())
}

/// `serde_json::from_slice` into a value. Nothing is said of the syntax of JSON.
#[verifier::external_body]
fn read_value_bytes(bytes: &Vec<u8>) -> (r: Result<serde_json::Value, String>)
    ensures
        match r {
            Ok(v) => json_read_bytes(bytes@) == Ok::<JsonV, Seq<char>>(json_contents(v)),
            Err(e) => json_read_bytes(bytes@) == Err::<JsonV, Seq<char>>(e@),
        },
{
    serde_json::from_slice(bytes).map_err(|e| e.to_string())
}

/// The variants of `serde_json::Value`, taken one by one: what the value holds.
#[verifier::external_body]
pub(crate) fn json_of_value(v: serde_json::Value) -> (r: Json)
    ensures
        r@ == json_contents(v),
{
    match v {
        serde_json::Value::Null => Json::Null,
        serde_json::Value::Bool(b) => Json::Bool(b),
        serde_json::Value::Number(n) => match (n.as_u64(), n.as_i64()) {
            (Some(p), _) => Json::Pos(p),
            (None, Some(m)) => Json::Neg(m),
            (None, None) => Json::Real(n.to_string()),
        },
        serde_json::Value::String(s) => Json::Text(s),
        serde_json::Value::Array(a) => Json::List(a.into_iter().map(json_of_value).collect()),
        serde_json::Value::Object(o) => Json::Table(
            o.into_iter().map(|(k, x)| (k, json_of_value(x))).collect(),
        ),
    }
}

/// What `serde_json` reads from a text, or the text of its error.
pub fn parse_json(text: &str) -> (r: Result<Json, String>)
    ensures
        match r {
            Ok(j) => json_read(text@) == Ok::<JsonV, Seq<char>>(j@),
            Err(e) => json_read(text@) == Err::<JsonV, Seq<char>>(e@),
        },
{
    match read_value(text) {
        Ok(v) => Ok(json_of_value(v)),
        Err(e) => Err(e),
    }
}

/// What `serde_json` reads from bytes, or the text of its error.
pub fn parse_json_bytes(bytes: &Vec<u8>) -> (r: Result<Json, String>)
    ensures
        match r {
            Ok(j) => json_read_bytes(bytes@) == Ok::<JsonV, Seq<char>>(j@),
            Err(e) => json_read_bytes(bytes@) == Err::<JsonV, Seq<char>>(e@),
        },
{
    match read_value_bytes(bytes) {
        Ok(v) => Ok(json_of_value(v)),
        Err(e) => Err(e),
    }
}

/// What is read from a text, where it is JSON.
pub open spec fn json_in(text: Seq<char>) -> Option<JsonV> {
    match json_read(text) {
        Ok(j) => Some(j),
        Err(_) => None,
    }
}

/// The value of `serde_json` that a JSON value stands for.
pub uninterp spec fn json_value(v: JsonV) -> serde_json::Value;

/// What `serde_json::Value::to_string` writes for a value.
pub uninterp spec fn value_line(v: serde_json::Value) -> Seq<char>;

/// What `serde_json::to_string_pretty` writes for a value.
pub uninterp spec fn value_lines(v: serde_json::Value) -> Seq<char>;

/// The variants of `serde_json::Value`, put together one by one: the value that a JSON
/// value stands for.
#[verifier::external_body]
fn value_of_json(j: &Json) -> (r: serde_json::Value)
    ensures
        r == json_value(j@),
{
    match j {
        Json::Null => JsonValue::Null,
        Json::Bool(b) => JsonValue::Bool(*b),
        Json::Pos(n) => JsonValue::from(*n),
        Json::Neg(n) => JsonValue::from(*n),
        Json::Real(s) => s.parse().ok().and_then(serde_json::Number::from_f64).map_or(
            JsonValue::Null, JsonValue::Number,
        ),
        Json::Text(s) => JsonValue::String(s.clone()),
        Json::List(v) => JsonValue::Array(v.iter().map(value_of_json).collect()),
        Json::Table(e) => JsonValue::Object(
            e.iter().map(|(k, x)| (k.clone(), value_of_json(x))).collect(),
        ),
    }
}

/// `serde_json::Value::to_string`. Nothing is said of the text.
#[verifier::external_body]
fn value_text(v: &serde_json::Value) -> (r: String)
    ensures
        r@ == value_line(*v),
{
    v.to_string()
}

/// `serde_json::to_string_pretty`, which does not fail on a value of `serde_json`.
/// Nothing is said of the text.
#[verifier::external_body]
fn value_pretty(v: &serde_json::Value) -> (r: String)
    ensures
        r@ == value_lines(*v),
{
    serde_json::to_string_pretty(v).unwrap_or_default()
}

/// What is written for a JSON value on one line.
pub open spec fn json_written(v: JsonV) -> Seq<char> {
    value_line(json_value(v))
}

/// What is written for a JSON value over several lines.
pub open spec fn json_laid_out(v: JsonV) -> Seq<char> {
    value_lines(json_value(v))
}

/// A JSON value on one line.
pub fn json_text(j: &Json) -> (r: String)
    ensures
        r@ == json_written(j@),
{
    value_text(&value_of_json(j))
}

/// A JSON value over several lines.
pub fn json_pretty(j: &Json) -> (r: String)
    ensures
        r@ == json_laid_out(j@),
{
    value_pretty(&value_of_json(j))
}

/// A YAML value as a mathematical object. Numbers and booleans are not told apart.
pub enum YamlV {
    Null,
    Text(Seq<char>),
    List(Seq<YamlV>),
    Table(Seq<(YamlV, YamlV)>),
    Tagged(Box<YamlV>),
    Other,
}

/// A YAML value. Numbers and booleans are not told apart.
#[derive(Debug)]
pub enum Yaml {
    Null,
    Text(String),
    List(Vec<Yaml>),
    Table(Vec<(Yaml, Yaml)>),
    Tagged(Box<Yaml>),
    Other,
}

pub open spec fn yaml_view(y: Yaml) -> YamlV
    decreases y,
{
    match y {
        Yaml::Null => YamlV::Null,
        Yaml::Text(s) => YamlV::Text(s@),
        Yaml::List(v) => YamlV::List(yaml_items(v@)),
        Yaml::Table(e) => YamlV::Table(yaml_entries(e@)),
        Yaml::Tagged(b) => YamlV::Tagged(Box::new(yaml_view(*b))),
        Yaml::Other => YamlV::Other,
    }
}

/// The items of a YAML sequence.
pub open spec fn yaml_items(v: Seq<Yaml>) -> Seq<YamlV>
    decreases v,
{
    if v.len() == 0 {
        Seq::empty()
    } else {
        yaml_items(v.drop_last()).push(yaml_view(v.last()))
    }
}

/// The entries of a YAML mapping.
pub open spec fn yaml_entries(e: Seq<(Yaml, Yaml)>) -> Seq<(YamlV, YamlV)>
    decreases e,
{
    if e.len() == 0 {
        Seq::empty()
    } else {
        yaml_entries(e.drop_last()).push((yaml_view(e.last().0), yaml_view(e.last().1)))
    }
}

impl View for Yaml {
    type V = YamlV;

    open spec fn view(&self) -> YamlV {
        yaml_view(*self)
    }
}

/// What a value of `serde_yaml` holds.
pub uninterp spec fn yaml_contents(v: serde_yaml::Value) -> YamlV;

/// What `serde_yaml::to_string` writes for a value; nothing where it cannot.
pub uninterp spec fn yaml_written(v: serde_yaml::Value) -> Option<Seq<char>>;

/// What `serde_json::to_value` makes of a value of `serde_yaml`, or the text of its
/// error.
pub uninterp spec fn yaml_as_json(v: serde_yaml::Value) -> Result<JsonV, Seq<char>>;

/// What `serde_yaml::Value::deserialize` makes of the document with the index `i` among
/// those that `serde_yaml::Deserializer` yields for a text, or the text of its error;
/// nothing where there is no such document.
pub uninterp spec fn yaml_doc(text: Seq<char>, i: nat) -> Option<
    Result<serde_yaml::Value, Seq<char>>,
>;

/// Whether `serde::de::IgnoredAny::deserialize` reads the document with the index `i`
/// among those that `serde_yaml::Deserializer` yields for a text to its end, or the text of
/// its error; nothing where there is no such document.
pub uninterp spec fn yaml_whole(text: Seq<char>, i: nat) -> Option<Result<(), Seq<char>>>;

/// What `bool::deserialize` makes of the document with the index `i` among those that
/// `serde_yaml::Deserializer` yields for a text, or the text of its error; nothing where
/// there is no such document.
pub uninterp spec fn yaml_truth(text: Seq<char>, i: nat) -> Option<Result<bool, Seq<char>>>;

/// Whether the document with the index `i` is known to end where a document ends: it was
/// read, if only to be ignored.
pub open spec fn doc_ends(text: Seq<char>, i: nat) -> bool {
    yaml_whole(text, i) == Some(Ok::<(), Seq<char>>(())) || (yaml_doc(text, i) is Some && yaml_doc(
        text,
        i,
    )->0 is Ok)
}

/// Whether the document with the index `i` broke off before anything was opened in it: it
/// fails alike, whether it is ignored or read as a truth value.
pub open spec fn doc_hollow(text: Seq<char>, i: nat) -> bool {
    match yaml_whole(text, i) {
        Some(Err(e)) => yaml_truth(text, i) == Some(Err::<bool, Seq<char>>(e)),
        _ => false,
    }
}

/// Whether no document before the index `i` broke off with something open in it.
pub open spec fn doc_reached(text: Seq<char>, i: nat) -> bool {
    forall|j: nat| j < i ==> #[trigger] doc_ends(text, j) || doc_hollow(text, j)
}

/// `Iterator::nth` on `serde_yaml::Deserializer::from_str`, and
/// `serde_yaml::Value::deserialize` on the document that it yields. A document that breaks
/// off, at an error of syntax or at an alias without its anchor, is an error, and what is
/// yielded behind it starts wherever it broke off. Behind an error of syntax these are
/// errors without end. Behind an alias it is the rest of the document: on the end of a
/// sequence or a mapping that was opened before the alias the call panics, while an alias
/// that is the whole document leaves nothing. So no document before this one may have
/// broken off with something open in it. Nothing is said of the syntax of YAML.
#[verifier::external_body]
fn yaml_document(text: &str, i: usize) -> (r: Option<Result<serde_yaml::Value, String>>)
    requires
        doc_reached(text@, i as nat),
    ensures
        match r {
            Some(Ok(v)) => yaml_doc(text@, i as nat) == Some(Ok::<serde_yaml::Value, Seq<char>>(v)),
            Some(Err(e)) => yaml_doc(text@, i as nat) == Some(
                Err::<serde_yaml::Value, Seq<char>>(e@),
            ),
            None => yaml_doc(text@, i as nat) is None,
        },
{
    match serde_yaml::Deserializer::from_str(text).nth(i) {
        Some(d) => Some(
            <serde_yaml::Value as serde::Deserialize>::deserialize(d).map_err(|e| e.to_string()),
        ),
        None => None,
    }
}

/// `Iterator::nth` on `serde_yaml::Deserializer::from_str`, and
/// `serde::de::IgnoredAny::deserialize` on the document that it yields, which fails where
/// the document breaks off. As above, no document before this one may have broken off with
/// something open in it.
#[verifier::external_body]
fn yaml_ignored(text: &str, i: usize) -> (r: Option<Result<(), String>>)
    requires
        doc_reached(text@, i as nat),
    ensures
        match r {
            Some(Ok(_)) => yaml_whole(text@, i as nat) == Some(Ok::<(), Seq<char>>(())),
            Some(Err(e)) => yaml_whole(text@, i as nat) == Some(Err::<(), Seq<char>>(e@)),
            None => yaml_whole(text@, i as nat) is None,
        },
{
    match serde_yaml::Deserializer::from_str(text).nth(i) {
        Some(d) => Some(
            <serde::de::IgnoredAny as serde::Deserialize>::deserialize(d).map(|_| ()).map_err(
                |e| e.to_string(),
            ),
        ),
        None => None,
    }
}

/// `Iterator::nth` on `serde_yaml::Deserializer::from_str`, and `bool::deserialize` on the
/// document that it yields: where a sequence or a mapping is opened it fails for that, and
/// not for where the document breaks off. As above, no document before this one may have
/// broken off with something open in it.
#[verifier::external_body]
fn yaml_bool(text: &str, i: usize) -> (r: Option<Result<bool, String>>)
    requires
        doc_reached(text@, i as nat),
    ensures
        match r {
            Some(Ok(b)) => yaml_truth(text@, i as nat) == Some(Ok::<bool, Seq<char>>(b)),
            Some(Err(e)) => yaml_truth(text@, i as nat) == Some(Err::<bool, Seq<char>>(e@)),
            None => yaml_truth(text@, i as nat) is None,
        },
{
    match serde_yaml::Deserializer::from_str(text).nth(i) {
        Some(d) => Some(<bool as serde::Deserialize>::deserialize(d).map_err(|e| e.to_string())),
        None => None,
    }
}

/// The number of documents that a text can have: each but the first needs a mark.
pub open spec fn doc_limit(text: Seq<char>) -> nat {
    let n = encode_utf8(text).len();
    if n < usize::MAX {
        n + 1
    } else {
        n
    }
}

/// The number of documents that a text can have.
pub fn document_limit(text: &str) -> (r: usize)
    ensures
        r == doc_limit(text@),
{
    let n: usize = text.as_bytes().len();
    if n < usize::MAX {
        n + 1
    } else {
        n
    }
}

/// A document that was read, or the text of its error.
pub open spec fn doc_view(d: Result<serde_yaml::Value, String>) -> Result<
    serde_yaml::Value,
    Seq<char>,
> {
    match d {
        Ok(v) => Ok(v),
        Err(e) => Err(e@),
    }
}

/// The contents of a list of documents that were read.
pub open spec fn doc_views(v: Seq<Result<serde_yaml::Value, String>>) -> Seq<
    Result<serde_yaml::Value, Seq<char>>,
> {
    v.map_values(|d: Result<serde_yaml::Value, String>| doc_view(d))
}

/// The documents of a text from the index `i` on, up to the first that cannot be read,
/// which is the last of them.
pub open spec fn docs_to_error(text: Seq<char>, i: nat, limit: nat) -> Seq<
    Result<serde_yaml::Value, Seq<char>>,
>
    decreases limit - i,
{
    if i >= limit {
        Seq::empty()
    } else {
        match yaml_doc(text, i) {
            None => Seq::empty(),
            Some(Err(e)) => seq![Err(e)],
            Some(Ok(v)) => seq![Ok(v)] + docs_to_error(text, i + 1, limit),
        }
    }
}

/// The documents of a text, up to the first that cannot be read.
pub open spec fn strict_docs(text: Seq<char>) -> Seq<Result<serde_yaml::Value, Seq<char>>> {
    docs_to_error(text, 0, doc_limit(text))
}

/// The documents of a text, up to the first that cannot be read.
pub fn documents_to_error(text: &str) -> (r: Vec<Result<serde_yaml::Value, String>>)
    ensures
        doc_views(r@) == strict_docs(text@),
{
    let limit = document_limit(text);
    let ghost all = strict_docs(text@);
    let mut r: Vec<Result<serde_yaml::Value, String>> = Vec::new();
    let mut i: usize = 0;
    assert(doc_views(r@) + all =~= all);
    while i < limit
        invariant
            i <= limit,
            limit == doc_limit(text@),
            all == strict_docs(text@),
            all == doc_views(r@) + docs_to_error(text@, i as nat, limit as nat),
            doc_reached(text@, i as nat),
        decreases limit - i,
    {
        match yaml_document(text, i) {
            None => {
                assert(all =~= doc_views(r@));
                return r;
            },
            Some(d) => {
                let ghost before = r@;
                let failed = d.is_err();
                r.push(d);
                assert(doc_views(r@) =~= doc_views(before).push(doc_view(d)));
                if failed {
                    assert(all =~= doc_views(r@));
                    return r;
                }
                proof {
                    assert(doc_ends(text@, i as nat));
                    assert(all =~= doc_views(r@) + docs_to_error(
                        text@,
                        (i + 1) as nat,
                        limit as nat,
                    ));
                }
            },
        }
        i += 1;
    }
    assert(all =~= doc_views(r@));
    r
}

/// Whether the document with the index `i` fails as the one before it did.
pub open spec fn doc_repeats(text: Seq<char>, i: nat) -> bool {
    i > 0 && yaml_whole(text, i) is Some && yaml_whole(text, i)->0 is Err && yaml_whole(text, i)
        == yaml_whole(text, (i - 1) as nat)
}

/// The documents of a text from the index `i` on, up to the first that breaks off with
/// something open in it, or fails as the one before it did.
pub open spec fn docs_to_break(text: Seq<char>, i: nat, limit: nat) -> Seq<
    Result<serde_yaml::Value, Seq<char>>,
>
    decreases limit - i,
{
    if i >= limit {
        Seq::empty()
    } else {
        match yaml_whole(text, i) {
            None => Seq::empty(),
            Some(Ok(_)) => match yaml_doc(text, i) {
                None => Seq::empty(),
                Some(d) => seq![d] + docs_to_break(text, i + 1, limit),
            },
            Some(Err(e)) => if doc_hollow(text, i) && !doc_repeats(text, i) {
                seq![Err(e)] + docs_to_break(text, i + 1, limit)
            } else {
                Seq::empty()
            },
        }
    }
}

/// The documents of a text, up to the first that breaks off with something open in it.
/// Those that cannot be read, such as one that has a key twice, are among them, and so are
/// those that break off before that. Behind an error of syntax there is nothing but that
/// error again.
pub open spec fn whole_docs(text: Seq<char>) -> Seq<Result<serde_yaml::Value, Seq<char>>> {
    docs_to_break(text, 0, doc_limit(text))
}

/// Whether the document with the index `i`, which failed, is skipped: it broke off before
/// anything was opened in it, and does not fail as the one before it did.
fn skips(text: &str, i: usize, error: &String, last: &Option<String>) -> (r: bool)
    requires
        doc_reached(text@, i as nat),
        yaml_whole(text@, i as nat) == Some(Err::<(), Seq<char>>(error@)),
        match *last {
            Some(e) => i > 0 && yaml_whole(text@, (i - 1) as nat) == Some(
                Err::<(), Seq<char>>(e@),
            ),
            None => i > 0 ==> yaml_whole(text@, (i - 1) as nat) == Some(Ok::<(), Seq<char>>(())),
        },
    ensures
        r == (doc_hollow(text@, i as nat) && !doc_repeats(text@, i as nat)),
{
    if let Some(e) = last {
        if same(e.as_str(), error.as_str()) {
            return false;
        }
    }
    match yaml_bool(text, i) {
        Some(Err(e)) => same(e.as_str(), error.as_str()),
        _ => false,
    }
}

/// The documents of a text, up to the first that breaks off with something open in it.
pub fn documents_to_break(text: &str) -> (r: Vec<Result<serde_yaml::Value, String>>)
    ensures
        doc_views(r@) == whole_docs(text@),
{
    let limit = document_limit(text);
    let ghost all = whole_docs(text@);
    let mut r: Vec<Result<serde_yaml::Value, String>> = Vec::new();
    let mut last: Option<String> = None;
    let mut i: usize = 0;
    assert(doc_views(r@) + all =~= all);
    while i < limit
        invariant
            i <= limit,
            limit == doc_limit(text@),
            all == whole_docs(text@),
            all == doc_views(r@) + docs_to_break(text@, i as nat, limit as nat),
            doc_reached(text@, i as nat),
            match last {
                Some(e) => i > 0 && yaml_whole(text@, (i - 1) as nat) == Some(
                    Err::<(), Seq<char>>(e@),
                ),
                None => i > 0 ==> yaml_whole(text@, (i - 1) as nat) == Some(
                    Ok::<(), Seq<char>>(()),
                ),
            },
        decreases limit - i,
    {
        let ghost before = r@;
        match yaml_ignored(text, i) {
            None => {
                assert(all =~= doc_views(r@));
                return r;
            },
            Some(Ok(_)) => match yaml_document(text, i) {
                None => {
                    assert(all =~= doc_views(r@));
                    return r;
                },
                Some(d) => {
                    r.push(d);
                    last = None;
                    assert(doc_views(r@) =~= doc_views(before).push(doc_view(d)));
                    assert(doc_ends(text@, i as nat));
                },
            },
            Some(Err(e)) => {
                if !skips(text, i, &e, &last) {
                    assert(all =~= doc_views(r@));
                    return r;
                }
                let d: Result<serde_yaml::Value, String> = Err(e.clone());
                r.push(d);
                last = Some(e);
                assert(doc_views(r@) =~= doc_views(before).push(doc_view(d)));
                assert(doc_hollow(text@, i as nat));
            },
        }
        proof {
            assert(doc_reached(text@, (i + 1) as nat)) by {
                assert forall|j: nat| j < i + 1 implies #[trigger] doc_ends(text@, j) || doc_hollow(
                    text@,
                    j,
                ) by {
                    if j < i {
                        assert(doc_ends(text@, j) || doc_hollow(text@, j));
                    }
                }
            }
            assert(all =~= doc_views(r@) + docs_to_break(text@, (i + 1) as nat, limit as nat));
        }
        i += 1;
    }
    assert(all =~= doc_views(r@));
    r
}

/// The variants of `serde_yaml::Value`, taken one by one: what the value holds.
#[verifier::external_body]
pub(crate) fn yaml_of_value(v: &serde_yaml::Value) -> (r: Yaml)
    ensures
        r@ == yaml_contents(*v),
{
    match v {
        serde_yaml::Value::Null => Yaml::Null,
        serde_yaml::Value::Bool(_) => Yaml::Other,
        serde_yaml::Value::Number(_) => Yaml::Other,
        serde_yaml::Value::String(s) => Yaml::Text(s.clone()),
        serde_yaml::Value::Sequence(a) => Yaml::List(a.iter().map(yaml_of_value).collect()),
        serde_yaml::Value::Mapping(m) => Yaml::Table(
            m.iter().map(|(k, x)| (yaml_of_value(k), yaml_of_value(x))).collect(),
        ),
        serde_yaml::Value::Tagged(t) => Yaml::Tagged(Box::new(yaml_of_value(&t.value))),
    }
}

/// `serde_yaml::to_string` on a value. Nothing is said of the text.
#[verifier::external_body]
pub(crate) fn yaml_text(v: &serde_yaml::Value) -> (r: Option<String>)
    ensures
        opt_text(r) == yaml_written(*v),
{
    serde_yaml::to_string(v).ok()
}

/// `serde_json::to_value` on a value of `serde_yaml`. Nothing is said of how the one
/// is made of the other.
#[verifier::external_body]
pub(crate) fn yaml_to_json(v: &serde_yaml::Value) -> (r: Result<serde_json::Value, String>)
    ensures
        match r {
            Ok(j) => yaml_as_json(*v) == Ok::<JsonV, Seq<char>>(json_contents(j)),
            Err(e) => yaml_as_json(*v) == Err::<JsonV, Seq<char>>(e@),
        },
{
    serde_json::to_value(v).map_err(|e| e.to_string())
}

/// The views of the items of a sequence, one by one.
pub proof fn yaml_items_each(v: Seq<Yaml>)
    ensures
        yaml_items(v).len() == v.len(),
        forall|i: int| 0 <= i < v.len() ==> (#[trigger] yaml_items(v)[i]) == v[i]@,
    decreases v.len(),
{
    if v.len() > 0 {
        yaml_items_each(v.drop_last());
        assert forall|i: int| 0 <= i < v.len() implies (#[trigger] yaml_items(v)[i]) == v[i]@ by {
            if i < v.len() - 1 {
                assert(yaml_items(v)[i] == yaml_items(v.drop_last())[i]);
                assert(v.drop_last()[i] == v[i]);
            }
        }
    }
}

/// The views of the entries of a mapping, one by one.
pub proof fn yaml_entries_each(e: Seq<(Yaml, Yaml)>)
    ensures
        yaml_entries(e).len() == e.len(),
        forall|i: int|
            0 <= i < e.len() ==> (#[trigger] yaml_entries(e)[i]) == (e[i].0@, e[i].1@),
    decreases e.len(),
{
    if e.len() > 0 {
        yaml_entries_each(e.drop_last());
        assert forall|i: int| 0 <= i < e.len() implies (#[trigger] yaml_entries(e)[i]) == (
            e[i].0@,
            e[i].1@,
        ) by {
            if i < e.len() - 1 {
                assert(yaml_entries(e)[i] == yaml_entries(e.drop_last())[i]);
                assert(e.drop_last()[i] == e[i]);
            }
        }
    }
}

/// The value without tags around it.
pub open spec fn untagged(y: YamlV) -> YamlV
    decreases y,
{
    match y {
        YamlV::Tagged(b) => untagged(*b),
        other => other,
    }
}

/// The text of a value, where it is one, under any tags.
pub open spec fn yaml_str(y: YamlV) -> Option<Seq<char>> {
    match untagged(y) {
        YamlV::Text(s) => Some(s),
        _ => None,
    }
}

/// The value of the first entry whose key is the text.
pub open spec fn entry_of(e: Seq<(YamlV, YamlV)>, key: Seq<char>) -> Option<YamlV>
    decreases e.len(),
{
    if e.len() == 0 {
        None
    } else if e[0].0 == YamlV::Text(key) {
        Some(e[0].1)
    } else {
        entry_of(e.drop_first(), key)
    }
}

/// The value at a key of a mapping, under any tags.
pub open spec fn yaml_get(y: YamlV, key: Seq<char>) -> Option<YamlV> {
    match untagged(y) {
        YamlV::Table(e) => entry_of(e, key),
        _ => None,
    }
}

impl Yaml {
    /// The value without tags around it.
    pub fn untag(&self) -> (r: &Yaml)
        ensures
            r@ == untagged(self@),
            !(r is Tagged),
        decreases self,
    {
        match self {
            Yaml::Tagged(b) => b.untag(),
            other => other,
        }
    }

    /// The text of a value, where it is one, under any tags.
    pub fn as_str(&self) -> (r: Option<&str>)
        ensures
            match r {
                Some(s) => yaml_str(self@) == Some(s@),
                None => yaml_str(self@) is None,
            },
    {
        match self.untag() {
            Yaml::Text(s) => Some(s.as_str()),
            _ => None,
        }
    }

    /// Whether the value is null, under any tags.
    pub fn is_null(&self) -> (r: bool)
        ensures
            r == (untagged(self@) is Null),
    {
        match self.untag() {
            Yaml::Null => true,
            _ => false,
        }
    }

    /// The value at a key of a mapping, under any tags.
    pub fn get(&self, key: &str) -> (r: Option<&Yaml>)
        ensures
            match r {
                Some(v) => yaml_get(self@, key@) == Some(v@),
                None => yaml_get(self@, key@) is None,
            },
    {
        match self.untag() {
            Yaml::Table(e) => {
                let ghost all = yaml_entries(e@);
                let mut i: usize = 0;
                proof {
                    yaml_entries_each(e@);
                }
                assert(all.skip(0) =~= all);
                while i < e.len()
                    invariant
                        i <= e@.len(),
                        all == yaml_entries(e@),
                        all.len() == e@.len(),
                        untagged(self@) == YamlV::Table(all),
                        forall|j: int|
                            0 <= j < e@.len() ==> (#[trigger] all[j]) == (e@[j].0@, e@[j].1@),
                        entry_of(all, key@) == entry_of(all.skip(i as int), key@),
                    decreases e@.len() - i,
                {
                    assert(all.skip(i as int)[0] == all[i as int]);
                    assert(all.skip(i as int).drop_first() =~= all.skip(i + 1));
                    let hit = match &e[i].0 {
                        Yaml::Text(s) => same(s.as_str(), key),
                        _ => false,
                    };
                    if hit {
                        return Some(&e[i].1);
                    }
                    i += 1;
                }
                None
            },
            _ => None,
        }
    }
}

} // verus!
