//! The kinds of API objects, their spec fields, and the schemas made of them.

use vstd::prelude::*;
use vstd::string::*;

use crate::json::{empty_table, with_key, Json, JsonV};
use crate::text::{same, text_lt};

verus! {

/// `tilt.dev` is the API group of the core objects, `v1alpha1` its version.
pub const API_VERSION: &'static str = "tilt.dev/v1alpha1";

/// The contents of a list of string slices.
pub open spec fn strs(v: Seq<&'static str>) -> Seq<Seq<char>> {
    v.map_values(|s: &'static str| s@)
}

/// The spec fields of each kind.
pub open spec fn kind_fields(kind: Seq<char>) -> Option<Seq<Seq<char>>> {
    if kind == "KubernetesApply"@ {
        Some(seq!["yaml"@, "applyCmd"@, "imageMaps"@])
    } else if kind == "KubernetesDiscovery"@ {
        Some(seq!["selectors"@])
    } else if kind == "PodLogStream"@ {
        Some(seq!["selector"@])
    } else if kind == "FileWatch"@ {
        Some(seq!["watchedPaths"@, "ignores"@])
    } else if kind == "Cmd"@ {
        Some(seq!["args"@, "dir"@, "env"@])
    } else if kind == "PortForward"@ {
        Some(seq!["forwards"@])
    } else if kind == "LiveUpdate"@ {
        Some(seq!["syncs"@, "execs"@, "stopPaths"@, "restart"@])
    } else if kind == "DockerImage"@ {
        Some(seq!["ref"@, "context"@])
    } else if kind == "ImageMap"@ {
        Some(seq!["selector"@])
    } else if kind == "CmdImage"@ {
        Some(seq!["ref"@, "args"@])
    } else if kind == "DockerComposeService"@ {
        Some(seq!["service"@, "project"@])
    } else if kind == "DockerComposeLogStream"@ {
        Some(seq!["service"@])
    } else if kind == "ToggleButton"@ {
        Some(seq!["location"@, "on"@, "off"@])
    } else if kind == "ConfigMap"@ {
        Some(seq!["data"@])
    } else if kind == "Tiltfile"@ {
        Some(seq!["path"@])
    } else if kind == "Session"@ {
        Some(seq!["targets"@])
    } else if kind == "ExtensionRepo"@ {
        Some(seq!["url"@])
    } else if kind == "Extension"@ {
        Some(seq!["repoName"@, "repoPath"@])
    } else if kind == "UIButton"@ {
        Some(seq!["text"@, "location"@])
    } else {
        None
    }
}

/// The spec fields that objects of the kind are given, none for an unknown kind.
pub fn spec_fields(kind: &str) -> (r: Option<Vec<&'static str>>)
    ensures
        match r {
            Some(v) => kind_fields(kind@) == Some(strs(v@)),
            None => kind_fields(kind@) is None,
        },
{
    if same(kind, "KubernetesApply") {
        let r: Vec<&'static str> = vec!["yaml", "applyCmd", "imageMaps"];
        assert(strs(r@) =~= seq!["yaml"@, "applyCmd"@, "imageMaps"@]);
        Some(r)
    } else if same(kind, "KubernetesDiscovery") {
        let r: Vec<&'static str> = vec!["selectors"];
        assert(strs(r@) =~= seq!["selectors"@]);
        Some(r)
    } else if same(kind, "PodLogStream") {
        let r: Vec<&'static str> = vec!["selector"];
        assert(strs(r@) =~= seq!["selector"@]);
        Some(r)
    } else if same(kind, "FileWatch") {
        let r: Vec<&'static str> = vec!["watchedPaths", "ignores"];
        assert(strs(r@) =~= seq!["watchedPaths"@, "ignores"@]);
        Some(r)
    } else if same(kind, "Cmd") {
        let r: Vec<&'static str> = vec!["args", "dir", "env"];
        assert(strs(r@) =~= seq!["args"@, "dir"@, "env"@]);
        Some(r)
    } else if same(kind, "PortForward") {
        let r: Vec<&'static str> = vec!["forwards"];
        assert(strs(r@) =~= seq!["forwards"@]);
        Some(r)
    } else if same(kind, "LiveUpdate") {
        let r: Vec<&'static str> = vec!["syncs", "execs", "stopPaths", "restart"];
        assert(strs(r@) =~= seq!["syncs"@, "execs"@, "stopPaths"@, "restart"@]);
        Some(r)
    } else if same(kind, "DockerImage") {
        let r: Vec<&'static str> = vec!["ref", "context"];
        assert(strs(r@) =~= seq!["ref"@, "context"@]);
        Some(r)
    } else if same(kind, "ImageMap") {
        let r: Vec<&'static str> = vec!["selector"];
        assert(strs(r@) =~= seq!["selector"@]);
        Some(r)
    } else if same(kind, "CmdImage") {
        let r: Vec<&'static str> = vec!["ref", "args"];
        assert(strs(r@) =~= seq!["ref"@, "args"@]);
        Some(r)
    } else if same(kind, "DockerComposeService") {
        let r: Vec<&'static str> = vec!["service", "project"];
        assert(strs(r@) =~= seq!["service"@, "project"@]);
        Some(r)
    } else if same(kind, "DockerComposeLogStream") {
        let r: Vec<&'static str> = vec!["service"];
        assert(strs(r@) =~= seq!["service"@]);
        Some(r)
    } else if same(kind, "ToggleButton") {
        let r: Vec<&'static str> = vec!["location", "on", "off"];
        assert(strs(r@) =~= seq!["location"@, "on"@, "off"@]);
        Some(r)
    } else if same(kind, "ConfigMap") {
        let r: Vec<&'static str> = vec!["data"];
        assert(strs(r@) =~= seq!["data"@]);
        Some(r)
    } else if same(kind, "Tiltfile") {
        let r: Vec<&'static str> = vec!["path"];
        assert(strs(r@) =~= seq!["path"@]);
        Some(r)
    } else if same(kind, "Session") {
        let r: Vec<&'static str> = vec!["targets"];
        assert(strs(r@) =~= seq!["targets"@]);
        Some(r)
    } else if same(kind, "ExtensionRepo") {
        let r: Vec<&'static str> = vec!["url"];
        assert(strs(r@) =~= seq!["url"@]);
        Some(r)
    } else if same(kind, "Extension") {
        let r: Vec<&'static str> = vec!["repoName", "repoPath"];
        assert(strs(r@) =~= seq!["repoName"@, "repoPath"@]);
        Some(r)
    } else if same(kind, "UIButton") {
        let r: Vec<&'static str> = vec!["text", "location"];
        assert(strs(r@) =~= seq!["text"@, "location"@]);
        Some(r)
    } else {
        None
    }
}

/// The kinds, in the order of their names.
pub open spec fn all_kinds() -> Seq<Seq<char>> {
    seq![
        "Cmd"@,
        "CmdImage"@,
        "ConfigMap"@,
        "DockerComposeLogStream"@,
        "DockerComposeService"@,
        "DockerImage"@,
        "Extension"@,
        "ExtensionRepo"@,
        "FileWatch"@,
        "ImageMap"@,
        "KubernetesApply"@,
        "KubernetesDiscovery"@,
        "LiveUpdate"@,
        "PodLogStream"@,
        "PortForward"@,
        "Session"@,
        "Tiltfile"@,
        "ToggleButton"@,
        "UIButton"@,
    ]
}

/// All kinds, sorted.
pub fn known_kinds() -> (r: Vec<&'static str>)
    ensures
        strs(r@) == all_kinds(),
{
    let r: Vec<&'static str> = vec![
        "Cmd",
        "CmdImage",
        "ConfigMap",
        "DockerComposeLogStream",
        "DockerComposeService",
        "DockerImage",
        "Extension",
        "ExtensionRepo",
        "FileWatch",
        "ImageMap",
        "KubernetesApply",
        "KubernetesDiscovery",
        "LiveUpdate",
        "PodLogStream",
        "PortForward",
        "Session",
        "Tiltfile",
        "ToggleButton",
        "UIButton",
    ];
    assert(strs(r@) =~= all_kinds());
    r
}

/// The JSON type of each spec field.
pub open spec fn type_of_field(field: Seq<char>) -> Seq<char> {
    if field == "args"@
        || field == "imageMaps"@
        || field == "selectors"@
        || field == "watchedPaths"@
        || field == "ignores"@
        || field == "forwards"@
        || field == "syncs"@
        || field == "execs"@
        || field == "stopPaths"@
        || field == "env"@
        || field == "targets"@ {
        "array"@
    } else if field == "restart"@ {
        "boolean"@
    } else if field == "data"@
        || field == "project"@
        || field == "location"@
        || field == "on"@
        || field == "off"@
        || field == "selector"@
        || field == "applyCmd"@ {
        "object"@
    } else {
        "string"@
    }
}

/// The JSON type of a spec field.
pub fn field_type(field: &str) -> (r: &'static str)
    ensures
        r@ == type_of_field(field@),
{
    if same(field, "args")
        || same(field, "imageMaps")
        || same(field, "selectors")
        || same(field, "watchedPaths")
        || same(field, "ignores")
        || same(field, "forwards")
        || same(field, "syncs")
        || same(field, "execs")
        || same(field, "stopPaths")
        || same(field, "env")
        || same(field, "targets") {
        "array"
    } else if same(field, "restart") {
        "boolean"
    } else if same(field, "data")
        || same(field, "project")
        || same(field, "location")
        || same(field, "on")
        || same(field, "off")
        || same(field, "selector")
        || same(field, "applyCmd") {
        "object"
    } else {
        "string"
    }
}

/// A schema that states a type and nothing else.
pub open spec fn typed(name: Seq<char>) -> JsonV {
    with_key(empty_table(), "type"@, JsonV::Text(name))
}

fn typed_schema(name: &str) -> (r: Json)
    ensures
        r@ == typed(name@),
{
    Json::table().with("type", Json::text(name))
}

/// The properties of a spec: each of the fields with its type.
pub open spec fn properties(fields: Seq<Seq<char>>) -> JsonV
    decreases fields.len(),
{
    if fields.len() == 0 {
        empty_table()
    } else {
        with_key(properties(fields.drop_last()), fields.last(), typed(type_of_field(fields.last())))
    }
}

/// The fields of the kind; none for an unknown kind.
pub open spec fn fields_or_none(kind: Seq<char>) -> Seq<Seq<char>> {
    match kind_fields(kind) {
        Some(f) => f,
        None => Seq::empty(),
    }
}

/// The schema of the spec of a kind.
pub open spec fn schema_of_spec(kind: Seq<char>) -> JsonV {
    with_key(
        with_key(empty_table(), "type"@, JsonV::Text("object"@)),
        "properties"@,
        properties(fields_or_none(kind)),
    )
}

/// The schema of the spec of a kind: an object with the kind's fields, each typed.
pub fn spec_schema(kind: &str) -> (r: Json)
    ensures
        r@ == schema_of_spec(kind@),
{
    let fields: Vec<&'static str> = match spec_fields(kind) {
        Some(f) => f,
        None => Vec::new(),
    };
    assert(strs(fields@) =~= fields_or_none(kind@));
    let mut props: Json = Json::table();
    let mut i: usize = 0;
    while i < fields.len()
        invariant
            i <= fields@.len(),
            props@ == properties(strs(fields@).take(i as int)),
        decreases fields@.len() - i,
    {
        let schema = typed_schema(field_type(fields[i]));
        props = props.with(fields[i], schema);
        proof {
            let next = strs(fields@).take(i + 1);
            assert(next.drop_last() =~= strs(fields@).take(i as int));
            assert(next.last() == fields@[i as int]@);
        }
        i += 1;
    }
    assert(strs(fields@).take(i as int) =~= strs(fields@));
    Json::table().with("type", Json::text("object")).with("properties", props)
}

/// The schema of the objects of a kind.
pub open spec fn schema_of_kind(kind: Seq<char>) -> JsonV {
    with_key(
        with_key(empty_table(), "type"@, JsonV::Text("object"@)),
        "properties"@,
        with_key(
            with_key(
                with_key(
                    with_key(empty_table(), "apiVersion"@, typed("string"@)),
                    "kind"@,
                    typed("string"@),
                ),
                "metadata"@,
                typed("object"@),
            ),
            "spec"@,
            schema_of_spec(kind),
        ),
    )
}

fn kind_schema(kind: &str) -> (r: Json)
    ensures
        r@ == schema_of_kind(kind@),
{
    let props = Json::table().with("apiVersion", typed_schema("string")).with(
        "kind",
        typed_schema("string"),
    ).with("metadata", typed_schema("object")).with("spec", spec_schema(kind));
    Json::table().with("type", Json::text("object")).with("properties", props)
}

/// One schema for each of the kinds.
pub open spec fn schemas_of(kinds: Seq<Seq<char>>) -> JsonV
    decreases kinds.len(),
{
    if kinds.len() == 0 {
        empty_table()
    } else {
        with_key(schemas_of(kinds.drop_last()), kinds.last(), schema_of_kind(kinds.last()))
    }
}

/// The OpenAPI 3.0 document over the schemas of all kinds.
pub open spec fn openapi() -> JsonV {
    with_key(
        with_key(
            with_key(empty_table(), "openapi"@, JsonV::Text("3.0.0"@)),
            "info"@,
            with_key(
                with_key(empty_table(), "title"@, JsonV::Text("Starling tilt.dev API"@)),
                "version"@,
                JsonV::Text("v1alpha1"@),
            ),
        ),
        "components"@,
        with_key(empty_table(), "schemas"@, schemas_of(all_kinds())),
    )
}

/// The OpenAPI 3.0 document: one component schema for each kind.
pub fn openapi_document() -> (r: Json)
    ensures
        r@ == openapi(),
{
    let kinds = known_kinds();
    let mut schemas: Json = Json::table();
    let mut i: usize = 0;
    while i < kinds.len()
        invariant
            i <= kinds@.len(),
            schemas@ == schemas_of(strs(kinds@).take(i as int)),
        decreases kinds@.len() - i,
    {
        schemas = schemas.with(kinds[i], kind_schema(kinds[i]));
        proof {
            let next = strs(kinds@).take(i + 1);
            assert(next.drop_last() =~= strs(kinds@).take(i as int));
            assert(next.last() == kinds@[i as int]@);
        }
        i += 1;
    }
    assert(strs(kinds@).take(i as int) =~= strs(kinds@));
    let info = Json::table().with("title", Json::text("Starling tilt.dev API")).with(
        "version",
        Json::text("v1alpha1"),
    );
    Json::table().with("openapi", Json::text("3.0.0")).with("info", info).with(
        "components",
        Json::table().with("schemas", schemas),
    )
}

/// The kinds that have spec fields are the known ones.
pub proof fn known_kinds_have_fields(kind: Seq<char>)
    ensures
        kind_fields(kind) is Some <==> all_kinds().contains(kind),
{
    let k = all_kinds();
    assert(k[0] == "Cmd"@);
    assert(k[1] == "CmdImage"@);
    assert(k[2] == "ConfigMap"@);
    assert(k[3] == "DockerComposeLogStream"@);
    assert(k[4] == "DockerComposeService"@);
    assert(k[5] == "DockerImage"@);
    assert(k[6] == "Extension"@);
    assert(k[7] == "ExtensionRepo"@);
    assert(k[8] == "FileWatch"@);
    assert(k[9] == "ImageMap"@);
    assert(k[10] == "KubernetesApply"@);
    assert(k[11] == "KubernetesDiscovery"@);
    assert(k[12] == "LiveUpdate"@);
    assert(k[13] == "PodLogStream"@);
    assert(k[14] == "PortForward"@);
    assert(k[15] == "Session"@);
    assert(k[16] == "Tiltfile"@);
    assert(k[17] == "ToggleButton"@);
    assert(k[18] == "UIButton"@);
}

/// Whether the texts differ first at index `i`, and `a` comes before `b` there.
proof fn lt_at(a: Seq<char>, b: Seq<char>, i: int)
    requires
        0 <= i <= a.len(),
        i < b.len(),
        a.take(i) == b.take(i),
        i < a.len() ==> (a[i] as int) < (b[i] as int),
    ensures
        text_lt(a, b),
    decreases i,
{
    if i > 0 {
        assert(a.take(i)[0] == a[0]);
        assert(b.take(i)[0] == b[0]);
        assert(a.drop_first().take(i - 1) =~= a.take(i).drop_first());
        assert(b.drop_first().take(i - 1) =~= b.take(i).drop_first());
        lt_at(a.drop_first(), b.drop_first(), i - 1);
    }
}

/// The kinds are listed in the order of their names.
pub proof fn known_kinds_sorted(i: int)
    requires
        0 <= i < all_kinds().len() - 1,
    ensures
        text_lt(all_kinds()[i], all_kinds()[i + 1]),
{
    reveal_strlit("Cmd");
    reveal_strlit("CmdImage");
    reveal_strlit("ConfigMap");
    reveal_strlit("DockerComposeLogStream");
    reveal_strlit("DockerComposeService");
    reveal_strlit("DockerImage");
    reveal_strlit("Extension");
    reveal_strlit("ExtensionRepo");
    reveal_strlit("FileWatch");
    reveal_strlit("ImageMap");
    reveal_strlit("KubernetesApply");
    reveal_strlit("KubernetesDiscovery");
    reveal_strlit("LiveUpdate");
    reveal_strlit("PodLogStream");
    reveal_strlit("PortForward");
    reveal_strlit("Session");
    reveal_strlit("Tiltfile");
    reveal_strlit("ToggleButton");
    reveal_strlit("UIButton");
    if i == 0 {
        assert("Cmd"@.take(3) =~= "CmdImage"@.take(3));
        lt_at("Cmd"@, "CmdImage"@, 3);
    }
    if i == 1 {
        assert("CmdImage"@.take(1) =~= "ConfigMap"@.take(1));
        lt_at("CmdImage"@, "ConfigMap"@, 1);
    }
    if i == 2 {
        assert("ConfigMap"@.take(0) =~= "DockerComposeLogStream"@.take(0));
        lt_at("ConfigMap"@, "DockerComposeLogStream"@, 0);
    }
    if i == 3 {
        assert("DockerComposeLogStream"@.take(13) =~= "DockerComposeService"@.take(13));
        lt_at("DockerComposeLogStream"@, "DockerComposeService"@, 13);
    }
    if i == 4 {
        assert("DockerComposeService"@.take(6) =~= "DockerImage"@.take(6));
        lt_at("DockerComposeService"@, "DockerImage"@, 6);
    }
    if i == 5 {
        assert("DockerImage"@.take(0) =~= "Extension"@.take(0));
        lt_at("DockerImage"@, "Extension"@, 0);
    }
    if i == 6 {
        assert("Extension"@.take(9) =~= "ExtensionRepo"@.take(9));
        lt_at("Extension"@, "ExtensionRepo"@, 9);
    }
    if i == 7 {
        assert("ExtensionRepo"@.take(0) =~= "FileWatch"@.take(0));
        lt_at("ExtensionRepo"@, "FileWatch"@, 0);
    }
    if i == 8 {
        assert("FileWatch"@.take(0) =~= "ImageMap"@.take(0));
        lt_at("FileWatch"@, "ImageMap"@, 0);
    }
    if i == 9 {
        assert("ImageMap"@.take(0) =~= "KubernetesApply"@.take(0));
        lt_at("ImageMap"@, "KubernetesApply"@, 0);
    }
    if i == 10 {
        assert("KubernetesApply"@.take(10) =~= "KubernetesDiscovery"@.take(10));
        lt_at("KubernetesApply"@, "KubernetesDiscovery"@, 10);
    }
    if i == 11 {
        assert("KubernetesDiscovery"@.take(0) =~= "LiveUpdate"@.take(0));
        lt_at("KubernetesDiscovery"@, "LiveUpdate"@, 0);
    }
    if i == 12 {
        assert("LiveUpdate"@.take(0) =~= "PodLogStream"@.take(0));
        lt_at("LiveUpdate"@, "PodLogStream"@, 0);
    }
    if i == 13 {
        assert("PodLogStream"@.take(2) =~= "PortForward"@.take(2));
        lt_at("PodLogStream"@, "PortForward"@, 2);
    }
    if i == 14 {
        assert("PortForward"@.take(0) =~= "Session"@.take(0));
        lt_at("PortForward"@, "Session"@, 0);
    }
    if i == 15 {
        assert("Session"@.take(0) =~= "Tiltfile"@.take(0));
        lt_at("Session"@, "Tiltfile"@, 0);
    }
    if i == 16 {
        assert("Tiltfile"@.take(1) =~= "ToggleButton"@.take(1));
        lt_at("Tiltfile"@, "ToggleButton"@, 1);
    }
    if i == 17 {
        assert("ToggleButton"@.take(0) =~= "UIButton"@.take(0));
        lt_at("ToggleButton"@, "UIButton"@, 0);
    }
}

} // verus!
