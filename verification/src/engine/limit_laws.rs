//! How long things are waited for and kept, how tags are cut, and what is recorded.

use vstd::prelude::*;
use vstd::string::*;
use vstd::utf8::{encode_utf8, encode_utf8_decode_utf8, is_ascii_chars, is_ascii_chars_encode_utf8};

use crate::api::merge::merge;
use crate::api::store::{stamped_keeps, StoreV};
use crate::api::v1alpha1::UIBuildTerminated;
use crate::engine::controller_laws::{one_patched, two_patched};
use crate::engine::controllers::{image_recorded, image_status, status_patch};
use crate::engine::desired::applied_bounds;
use crate::engine::images::{digest_cuts, tag_of};
use crate::engine::materialize::{extensions_recorded, repos_recorded};
use crate::engine::services::{first_value, resolved_port, variable_name};
use crate::engine::status::history_after;
use crate::json::{at, JsonV};
use crate::k8s::labels_at;
use crate::manifest::ProbePort;
use crate::text::{parsed, starts_with};
use crate::trees::{yaml_str, YamlV};

verus! {

/// The limits that this keeps to.
pub proof fn limits_told()
    ensures
        crate::proxy::MAX_PROXY_HOPS == 5,
        crate::proxy::MAX_HEAD_BYTES == 64 * 1024,
        crate::health::MAX_MODULES == 24,
        crate::health::MAX_RESPONSE_BYTES == 512 * 1024,
        crate::cli::processes::SHORT_CMD == 80,
        crate::daemon::log_ring::LOG_RING == 400,
        crate::daemon::state::INSTANCE_TTL == 10 * 1000,
        crate::engine::status::BUILD_HISTORY == 10,
{
}

/// The newest build is remembered first, before those that were; ten are, at most, and no
/// fewer while there are so many.
pub proof fn builds_remembered(before: Seq<UIBuildTerminated>, after: Seq<UIBuildTerminated>, i: int)
    requires
        history_after(before, after),
    ensures
        before.len() < 10 ==> after.len() == before.len() + 1,
        before.len() >= 10 ==> after.len() == 10,
        1 <= i < after.len() ==> after[i] == before[i - 1],
{
}

/// An image is tagged by the first twelve characters of its digest, or by all of it where
/// it has fewer.
pub proof fn tags_cut(hex: Seq<char>)
    requires
        is_ascii_chars(hex),
        !starts_with(hex, "sha256:"@),
    ensures
        digest_cuts(hex),
        hex.len() >= 12 ==> tag_of(hex) == "starling-"@ + hex.take(12),
        hex.len() < 12 ==> tag_of(hex) == "starling-"@ + hex,
{
    is_ascii_chars_encode_utf8(hex);
    let b = encode_utf8(hex);
    let n: int = if hex.len() < 12 {
        hex.len() as int
    } else {
        12
    };
    let t = hex.take(n);
    assert(is_ascii_chars(t)) by {
        assert forall|i: int| 0 <= i < t.len() implies #[trigger] t[i] == hex[i] by {}
    }
    is_ascii_chars_encode_utf8(t);
    assert(b.subrange(0, n) =~= encode_utf8(t));
    encode_utf8_decode_utf8(t);
    assert(t.len() == hex.len() ==> t =~= hex);
    vstd::utf8::encode_utf8_valid_utf8(hex);
    if n < b.len() {
        vstd::utf8::is_char_boundary_iff_is_leading_byte(b, n);
    }
    vstd::utf8::is_char_boundary_start_end_of_seq(b);
}

/// The port of a probe that is left to a variable is an error where there is no such
/// variable, and where its value is no port.
pub proof fn probe_port_refused(
    raw: String,
    env: Seq<(Seq<char>, Seq<char>)>,
    v: Seq<char>,
    n: u16,
)
    ensures
        first_value(env, variable_name(raw@)) is None ==> resolved_port(
            ProbePort::Deferred(raw),
            env,
        ) == Err::<u16, Seq<char>>("could not resolve probe port "@ + raw@),
        first_value(env, variable_name(raw@)) == Some(v) && parsed(v, 65535) is None
            ==> resolved_port(ProbePort::Deferred(raw), env) is Err,
        first_value(env, variable_name(raw@)) == Some(v) && parsed(v, 65535) == Some(n as nat)
            ==> resolved_port(ProbePort::Deferred(raw), env) == Ok::<u16, Seq<char>>(n),
{
}

/// Labels are those of a mapping from texts to texts; what is none, or maps anything else,
/// has no labels.
pub proof fn labels_of_texts(v: YamlV, e: Seq<(YamlV, YamlV)>, i: int, text: Seq<char>)
    ensures
        labels_at(YamlV::Text(text), Seq::empty()).len() == 0,
        0 <= i < e.len() && (yaml_str(e[i].0) is None || yaml_str(e[i].1) is None) ==> labels_at(
            YamlV::Table(e),
            Seq::empty(),
        ).len() == 0,
        (forall|k: int|
            0 <= k < e.len() ==> yaml_str((#[trigger] e[k]).0) is Some && yaml_str(e[k].1) is Some)
            ==> labels_at(YamlV::Table(e), Seq::empty()) == crate::k8s::labels_in(e),
{
}

/// The outcome of a build is recorded on the object of the image, and on that of its
/// command, where there are such.
pub proof fn outcome_recorded(
    s: StoreV,
    image: Seq<char>,
    id: Seq<char>,
    deployed: Seq<char>,
    kind: Seq<char>,
)
    requires
        s.ok(),
        kind == "DockerImage"@ || kind == "CmdImage"@,
        s.find(kind, "default"@, image) is Some,
        (s.find(kind, "default"@, image)->0).object is Table,
    ensures
        ({
            let o = image_recorded(s, image, id, deployed).find(kind, "default"@, image);
            &&& o is Some
            &&& at(at(o->0.object, "status"@), "ref"@) == JsonV::Text(deployed)
            &&& at(at(o->0.object, "status"@), "imageID"@) == JsonV::Text(id)
        }),
{
    reveal_strlit("ImageMap");
    reveal_strlit("DockerImage");
    reveal_strlit("CmdImage");
    assert("ImageMap"@.len() == 8 && "DockerImage"@.len() == 11 && "CmdImage"@.len() == 8);
    assert("ImageMap"@[0] == 'I' && "CmdImage"@[0] == 'C');
    let p1 = status_patch(image_status("image"@, deployed, id));
    let p2 = status_patch(image_status("ref"@, deployed, id));
    crate::engine::controller_laws::other_kind_kept(s, "ImageMap"@, image, p1, kind, image);
    let s1 = s.patched("ImageMap"@, "default"@, image, p1);
    crate::engine::controller_laws::other_kind_kept(s, "ImageMap"@, image, p1, kind, image);
    if kind == "DockerImage"@ {
        status_set(s1, kind, image, deployed, id);
        let s2 = s1.patched("DockerImage"@, "default"@, image, p2);
        crate::engine::controller_laws::other_kind_kept(s2, "CmdImage"@, image, p2, kind, image);
    } else {
        crate::engine::controller_laws::other_kind_kept(s1, "DockerImage"@, image, p2, kind, image);
        let s2 = s1.patched("DockerImage"@, "default"@, image, p2);
        status_set(s2, kind, image, deployed, id);
    }
}

proof fn status_set(
    s: StoreV,
    kind: Seq<char>,
    image: Seq<char>,
    deployed: Seq<char>,
    id: Seq<char>,
)
    requires
        s.ok(),
        s.find(kind, "default"@, image) is Some,
        (s.find(kind, "default"@, image)->0).object is Table,
    ensures
        ({
            let t = s.patched(
                kind,
                "default"@,
                image,
                status_patch(image_status("ref"@, deployed, id)),
            );
            let o = t.find(kind, "default"@, image);
            &&& t.ok()
            &&& o is Some
            &&& at(at(o->0.object, "status"@), "ref"@) == JsonV::Text(deployed)
            &&& at(at(o->0.object, "status"@), "imageID"@) == JsonV::Text(id)
        }),
{
    reveal_strlit("ref");
    reveal_strlit("imageID");
    reveal_strlit("status");
    reveal_strlit("kind");
    reveal_strlit("apiVersion");
    reveal_strlit("metadata");
    assert("ref"@.len() == 3 && "imageID"@.len() == 7);
    assert("status"@.len() == 6 && "kind"@.len() == 4 && "apiVersion"@.len() == 10
        && "metadata"@.len() == 8);
    let o = s.find(kind, "default"@, image)->0;
    let value = image_status("ref"@, deployed, id);
    let m = merge(o.object, status_patch(value));
    two_patched(at(o.object, "status"@), "ref"@, deployed, "imageID"@, id);
    one_patched(o.object, "status"@, value, "status"@);
    s.applied_finds(kind, "default"@, image, m);
    applied_bounds(s, kind, "default"@, image, m);
    stamped_keeps(kind, "default"@, image, o.uid, s.resource_version + 1, m, "status"@);
}

/// Every repository of extensions is recorded with its path, and every extension with its
/// repository, the last ones where a name comes twice.
pub proof fn extensions_told(
    s: StoreV,
    repos: Seq<(Seq<char>, Seq<char>)>,
    exts: Seq<(Seq<char>, Seq<char>)>,
    name: Seq<char>,
    path: Seq<char>,
)
    requires
        s.ok(),
    ensures
        ({
            let r = repos_recorded(s, repos.push((name, path)));
            let o = r.find("ExtensionRepo"@, "default"@, name);
            &&& o is Some
            &&& at(at(o->0.object, "spec"@), "url"@) == JsonV::Text("file://"@ + path)
        }),
        ({
            let r = extensions_recorded(s, exts.push((name, path)));
            let o = r.find("Extension"@, "default"@, name);
            &&& o is Some
            &&& at(at(o->0.object, "spec"@), "repoName"@) == JsonV::Text(path)
            &&& at(at(o->0.object, "spec"@), "repoPath"@) == JsonV::Text(name)
        }),
{
    let a = repos.push((name, path));
    let b = exts.push((name, path));
    assert(a.drop_last() =~= repos);
    assert(b.drop_last() =~= exts);
    repos_ok(s, repos);
    exts_ok(s, exts);
    let one = crate::engine::objects::one(
        "spec"@,
        crate::engine::objects::one("url"@, JsonV::Text("file://"@ + path)),
    );
    let two = crate::engine::objects::one(
        "spec"@,
        crate::json::with_key(
            crate::engine::objects::one("repoName"@, JsonV::Text(path)),
            "repoPath"@,
            JsonV::Text(name),
        ),
    );
    recorded_once(repos_recorded(s, repos), "ExtensionRepo"@, name, one);
    recorded_once(extensions_recorded(s, exts), "Extension"@, name, two);
    reveal_strlit("repoName");
    reveal_strlit("repoPath");
    assert("repoName"@[4] == 'N' && "repoPath"@[4] == 'P');
    keys_told(path, name);
}

proof fn keys_told(path: Seq<char>, name: Seq<char>)
    requires
        "repoName"@ != "repoPath"@,
    ensures
        ({
            let one = crate::engine::objects::one(
                "spec"@,
                crate::engine::objects::one("url"@, JsonV::Text("file://"@ + path)),
            );
            let two = crate::engine::objects::one(
                "spec"@,
                crate::json::with_key(
                    crate::engine::objects::one("repoName"@, JsonV::Text(path)),
                    "repoPath"@,
                    JsonV::Text(name),
                ),
            );
            &&& one is Table && two is Table
            &&& at(at(one, "spec"@), "url"@) == JsonV::Text("file://"@ + path)
            &&& at(at(two, "spec"@), "repoName"@) == JsonV::Text(path)
            &&& at(at(two, "spec"@), "repoPath"@) == JsonV::Text(name)
        }),
{
    broadcast use {
        crate::json_laws::key_set,
        crate::json_laws::stays_table,
        crate::json_laws::empty_has_none,
    };

    assert(crate::json::empty_table() is Table);
}

/// What is applied is held under its spec.
proof fn recorded_once(s: StoreV, kind: Seq<char>, name: Seq<char>, object: JsonV)
    requires
        s.ok(),
        object is Table,
    ensures
        s.applied(kind, "default"@, name, object).find(kind, "default"@, name) is Some,
        at(
            s.applied(kind, "default"@, name, object).find(kind, "default"@, name)->0.object,
            "spec"@,
        ) == at(object, "spec"@),
{
    reveal_strlit("spec");
    reveal_strlit("kind");
    reveal_strlit("apiVersion");
    reveal_strlit("metadata");
    assert("spec"@.len() == 4 && "kind"@.len() == 4 && "apiVersion"@.len() == 10
        && "metadata"@.len() == 8);
    assert("spec"@[0] == 's' && "kind"@[0] == 'k');
    s.applied_finds(kind, "default"@, name, object);
    let uid = match s.find(kind, "default"@, name) {
        Some(o) => o.uid,
        None => crate::api::store::nth_uid(s.next_uid + 1),
    };
    stamped_keeps(kind, "default"@, name, uid, s.resource_version + 1, object, "spec"@);
}

proof fn repos_ok(s: StoreV, repos: Seq<(Seq<char>, Seq<char>)>)
    requires
        s.ok(),
    ensures
        repos_recorded(s, repos).ok(),
    decreases repos.len(),
{
    if repos.len() > 0 {
        repos_ok(s, repos.drop_last());
        applied_bounds(
            repos_recorded(s, repos.drop_last()),
            "ExtensionRepo"@,
            "default"@,
            repos.last().0,
            crate::engine::objects::one(
                "spec"@,
                crate::engine::objects::one("url"@, JsonV::Text("file://"@ + repos.last().1)),
            ),
        );
    }
}

proof fn exts_ok(s: StoreV, exts: Seq<(Seq<char>, Seq<char>)>)
    requires
        s.ok(),
    ensures
        extensions_recorded(s, exts).ok(),
    decreases exts.len(),
{
    if exts.len() > 0 {
        exts_ok(s, exts.drop_last());
        applied_bounds(
            extensions_recorded(s, exts.drop_last()),
            "Extension"@,
            "default"@,
            exts.last().0,
            crate::engine::objects::one(
                "spec"@,
                crate::json::with_key(
                    crate::engine::objects::one("repoName"@, JsonV::Text(exts.last().1)),
                    "repoPath"@,
                    JsonV::Text(exts.last().0),
                ),
            ),
        );
    }
}

} // verus!
