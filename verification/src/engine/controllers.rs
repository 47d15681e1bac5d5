//! The controllers: what is done for API objects, and what is recorded on them.
//!
//! What the cluster or a command answers is handed in; where a controller has to
//! ask first, another function says what to ask.

use vstd::prelude::*;
use vstd::string::*;

use crate::api::store::{ApiObjectStore, StoreV, StoredObject};
use crate::engine::live_update::fallback_paths;
use crate::engine::objects::{
    apply_status, apply_status_json, exec_entries, live_update_value, one, queue_status_patch,
    restarts, selector, sync_entries, txt,
};
use crate::engine::pods::{
    aggregate_pod_status, container_statuses, discovery_selector, discovery_selector_text,
    first_pod, first_pod_name, own_selector, pod_log_selector, pod_record, pod_record_value,
    pods_fit, pods_runtime, ready_count, sums_fit,
};
use crate::json::{
    as_list, at, items, list_view, list_view_items, list_view_push, lookup_put, text_list, text_or,
    with_key, Json, JsonV,
};
use crate::manifest::{LiveUpdateStep, Manifest};
use crate::text::{
    cat3, chars_of, debug_list, debug_texts, find, find_from, join, joined, lines, lines_of,
    opt_text, owned, pairs, pairs_push, pieces, same, slice_text, split, strip_prefix, texts,
    texts_push, trim, trim_front, trimmed, trimmed_front, without_prefix, Class,
};
use crate::trees::{json_in, parse_json};

verus! {

/// A table with one entry.
fn entry(k: &str, v: Json) -> (r: Json)
    ensures
        r@ == one(k@, v@),
{
    Json::table().with(k, v)
}

/// A patch of the status of an object.
pub open spec fn status_patch(v: JsonV) -> JsonV {
    one("status"@, v)
}

/// Patches the object under a name, where there is one.
fn patch_status(api: &mut ApiObjectStore, kind: &str, name: &str, status: Json)
    requires
        old(api)@.ok(),
        old(api)@.room(1),
    ensures
        final(api)@.ok(),
        final(api)@ == old(api)@.patched(kind@, "default"@, name@, status_patch(status@)),
{
    let _ = api.patch(kind, "default", name, entry("status", status));
}

/// Records the builds that are queued, on the status of the trigger queue.
pub fn set_trigger_queue_status(api: &mut ApiObjectStore, names: &Vec<String>)
    requires
        old(api)@.ok(),
        old(api)@.room(1),
    ensures
        final(api)@.ok(),
        final(api)@ == old(api)@.patched(
            "TriggerQueue"@,
            "default"@,
            "queue"@,
            status_patch(one("queue"@, text_list(texts(names@)))),
        ),
{
    let _ = api.patch("TriggerQueue", "default", "queue", queue_status_patch(names));
}

/// The status of an image under the key that its kind of object has for it.
pub open spec fn image_status(key: Seq<char>, deploy_ref: Seq<char>, image_id: Seq<char>) -> JsonV {
    with_key(one(key, txt(deploy_ref)), "imageID"@, txt(image_id))
}

fn image_status_json(key: &str, deploy_ref: &str, image_id: &str) -> (r: Json)
    ensures
        r@ == image_status(key@, deploy_ref@, image_id@),
{
    entry(key, Json::text(deploy_ref)).with("imageID", Json::text(image_id))
}

/// The store after the outcome of an image build was recorded.
pub open spec fn image_recorded(
    s: StoreV,
    image_ref: Seq<char>,
    image_id: Seq<char>,
    deploy_ref: Seq<char>,
) -> StoreV {
    s.patched(
        "ImageMap"@,
        "default"@,
        image_ref,
        status_patch(image_status("image"@, deploy_ref, image_id)),
    ).patched(
        "DockerImage"@,
        "default"@,
        image_ref,
        status_patch(image_status("ref"@, deploy_ref, image_id)),
    ).patched(
        "CmdImage"@,
        "default"@,
        image_ref,
        status_patch(image_status("ref"@, deploy_ref, image_id)),
    )
}

/// Records the outcome of an image build on the objects of the image: the reference
/// that is deployed, and the digest.
pub fn write_image_status(
    api: &mut ApiObjectStore,
    image_ref: &str,
    digest: Option<&str>,
    deploy_ref: &str,
)
    requires
        old(api)@.ok(),
        old(api)@.room(3),
    ensures
        final(api)@.ok(),
        final(api)@ == image_recorded(
            old(api)@,
            image_ref@,
            match digest {
                Some(d) => d@,
                None => Seq::empty(),
            },
            deploy_ref@,
        ),
{
    let image_id: String = match digest {
        Some(d) => owned(d),
        None => String::new(),
    };
    patch_status(
        api,
        "ImageMap",
        image_ref,
        image_status_json("image", deploy_ref, image_id.as_str()),
    );
    patch_status(
        api,
        "DockerImage",
        image_ref,
        image_status_json("ref", deploy_ref, image_id.as_str()),
    );
    patch_status(
        api,
        "CmdImage",
        image_ref,
        image_status_json("ref", deploy_ref, image_id.as_str()),
    );
}

/// The images of an object, found by the names that it lists: the reference that
/// resources name them by, and the one that is deployed. Images that were not built
/// yet are left out.
pub open spec fn image_maps_of(s: StoreV, names: Seq<JsonV>) -> Seq<(Seq<char>, Seq<char>)>
    decreases names.len(),
{
    if names.len() == 0 {
        Seq::empty()
    } else {
        let rest = image_maps_of(s, names.drop_last());
        match names.last() {
            JsonV::Text(n) => match s.find("ImageMap"@, "default"@, n) {
                Some(im) => {
                    let image = text_or(at(at(im.object, "status"@), "image"@), Seq::empty());
                    if image.len() > 0 {
                        rest.push((text_or(at(at(im.object, "spec"@), "selector"@), n), image))
                    } else {
                        rest
                    }
                },
                None => rest,
            },
            _ => rest,
        }
    }
}

/// The images of a `KubernetesApply` object.
pub open spec fn image_maps_for(s: StoreV, name: Seq<char>) -> Seq<(Seq<char>, Seq<char>)> {
    match s.find("KubernetesApply"@, "default"@, name) {
        Some(o) => image_maps_of(s, items(at(at(o.object, "spec"@), "imageMaps"@))),
        None => Seq::empty(),
    }
}

fn blank_or<'a>(v: &'a Json) -> (r: &'a str)
    ensures
        r@ == text_or(v@, Seq::empty()),
{
    proof {
        reveal_strlit("");
        assert(""@ =~= Seq::empty());
    }
    v.str_or("")
}

/// The images of a `KubernetesApply` object that were built.
pub fn resolve_image_maps_for(api: &ApiObjectStore, apply_name: &str) -> (r: Vec<(String, String)>)
    ensures
        pairs(r@) == image_maps_for(api@, apply_name@),
{
    broadcast use pairs_push;

    let mut r: Vec<(String, String)> = Vec::new();
    assert(pairs(r@) =~= Seq::empty());
    let o: StoredObject = match api.get("KubernetesApply", "default", apply_name) {
        Some(o) => o,
        None => {
            return r;
        },
    };
    match o.object.at("spec").at("imageMaps").as_list() {
        Some(v) => {
            let ghost all = list_view(v@);
            proof {
                list_view_items(v@);
            }
            let mut i: usize = 0;
            assert(all.take(0).len() == 0);
            while i < v.len()
                invariant
                    i <= v@.len(),
                    all == list_view(v@),
                    all.len() == v@.len(),
                    forall|j: int| 0 <= j < v@.len() ==> (#[trigger] all[j]) == v@[j]@,
                    pairs(r@) == image_maps_of(api@, all.take(i as int)),
                decreases v@.len() - i,
            {
                proof {
                    assert(all.take(i + 1).drop_last() =~= all.take(i as int));
                    assert(all.take(i + 1).last() == all[i as int]);
                }
                if let Some(n) = v[i].as_str() {
                    if let Some(im) = api.get("ImageMap", "default", n) {
                        let image = blank_or(im.object.at("status").at("image"));
                        if !image.is_empty() {
                            let selector = im.object.at("spec").at("selector").str_or(n);
                            r.push((owned(selector), owned(image)));
                        }
                    }
                }
                i += 1;
            }
            assert(all.take(i as int) =~= all);
            r
        },
        None => r,
    }
}

/// A value without the quotes around it.
pub open spec fn unquoted(s: Seq<char>) -> Seq<char> {
    if s.len() >= 2 && s[0] == s.last() && (s[0] == '"' || s[0] == '\'') {
        s.subrange(1, s.len() - 1)
    } else {
        s
    }
}

fn unquote(s: &str) -> (r: String)
    ensures
        r@ == unquoted(s@),
{
    let cs = chars_of(s);
    let n: usize = cs.len();
    if n >= 2 && cs[0] == cs[n - 1] && (cs[0] == '"' || cs[0] == '\'') {
        slice_text(&cs, 1, n - 1)
    } else {
        owned(s)
    }
}

/// What a line gives as an image: the value of an `image` entry, perhaps the first of
/// a list item.
pub open spec fn image_of_line(l: Seq<char>) -> Option<Seq<char>> {
    let body = match without_prefix(trim(l), "- "@) {
        Some(rest) => trim_front(rest, Class::Space),
        None => trim(l),
    };
    match without_prefix(body, "image:"@) {
        Some(v) => Some(unquoted(trim(v))),
        None => None,
    }
}

/// A line with the image that it gives replaced, where that is the selected one.
pub open spec fn image_line(l: Seq<char>, selector: Seq<char>, image: Seq<char>) -> Seq<char> {
    match find_from(l, "image:"@, 0) {
        Some(i) => if image_of_line(l) == Some(selector) {
            l.take(i) + "image: "@ + image
        } else {
            l
        },
        None => l,
    }
}

fn rewrite_line(l: &str, selector: &str, image: &str) -> (r: String)
    ensures
        r@ == image_line(l@, selector@, image@),
{
    let t = trimmed(l);
    let body: String = match strip_prefix(t.as_str(), "- ") {
        Some(rest) => trimmed_front(rest.as_str(), Class::Space),
        None => t,
    };
    let hit = match strip_prefix(body.as_str(), "image:") {
        Some(v) => same(unquote(trimmed(v.as_str()).as_str()).as_str(), selector),
        None => false,
    };
    let cs = chars_of(l);
    match find(&cs, &chars_of("image:"), 0) {
        Some(i) => if hit {
            assert(cs@.subrange(0, i as int) =~= l@.take(i as int));
            cat3(slice_text(&cs, 0, i).as_str(), "image: ", image)
        } else {
            owned(l)
        },
        None => owned(l),
    }
}

/// A document with the selected image replaced wherever a container names it.
pub open spec fn image_rewritten(
    doc: Seq<char>,
    selector: Seq<char>,
    image: Seq<char>,
) -> Seq<char> {
    join(
        split(doc, "\n"@).map_values(|l: Seq<char>| image_line(l, selector, image)),
        "\n"@,
    )
}

/// A document with the selected image replaced wherever a container names it.
pub fn rewrite_container_image(doc: &str, selector: &str, image: &str) -> (r: String)
    ensures
        r@ == image_rewritten(doc@, selector@, image@),
{
    broadcast use texts_push;

    proof {
        reveal_strlit("\n");
    }
    let ls = pieces(doc, "\n");
    let ghost all = split(doc@, "\n"@).map_values(|l: Seq<char>| image_line(l, selector@, image@));
    let mut out: Vec<String> = Vec::new();
    let mut i: usize = 0;
    assert(texts(out@) =~= all.take(0));
    while i < ls.len()
        invariant
            i <= ls@.len(),
            texts(ls@) == split(doc@, "\n"@),
            all == split(doc@, "\n"@).map_values(
                |l: Seq<char>| image_line(l, selector@, image@),
            ),
            texts(out@) == all.take(i as int),
        decreases ls@.len() - i,
    {
        let l = rewrite_line(ls[i].as_str(), selector, image);
        proof {
            assert(texts(ls@)[i as int] == ls@[i as int]@);
            assert(all.take(i + 1) =~= all.take(i as int).push(l@));
        }
        out.push(l);
        i += 1;
    }
    assert(all.take(i as int) =~= all);
    joined(&out, "\n")
}

/// A document with all images replaced, in order.
pub open spec fn images_injected(
    doc: Seq<char>,
    maps: Seq<(Seq<char>, Seq<char>)>,
) -> Seq<char>
    decreases maps.len(),
{
    if maps.len() == 0 {
        doc
    } else {
        image_rewritten(images_injected(doc, maps.drop_last()), maps.last().0, maps.last().1)
    }
}

/// Documents with all images replaced; without images, the text as it is.
pub open spec fn docs_injected(yaml: Seq<char>, maps: Seq<(Seq<char>, Seq<char>)>) -> Seq<char> {
    if maps.len() == 0 {
        yaml
    } else {
        join(
            split(yaml, "\n---\n"@).map_values(|d: Seq<char>| images_injected(d, maps)),
            "\n---\n"@,
        )
    }
}

fn inject_doc(doc: &str, maps: &Vec<(String, String)>) -> (r: String)
    ensures
        r@ == images_injected(doc@, pairs(maps@)),
{
    let ghost all = pairs(maps@);
    let mut r: String = owned(doc);
    let mut i: usize = 0;
    assert(all.take(0).len() == 0);
    while i < maps.len()
        invariant
            i <= maps@.len(),
            all == pairs(maps@),
            r@ == images_injected(doc@, all.take(i as int)),
        decreases maps@.len() - i,
    {
        proof {
            assert(all.take(i + 1).drop_last() =~= all.take(i as int));
            assert(all.take(i + 1).last() == (maps@[i as int].0@, maps@[i as int].1@));
        }
        r = rewrite_container_image(r.as_str(), maps[i].0.as_str(), maps[i].1.as_str());
        i += 1;
    }
    assert(all.take(i as int) =~= all);
    r
}

/// Documents with all images replaced; without images, the text as it is.
pub fn inject_image_maps(yaml: &str, maps: &Vec<(String, String)>) -> (r: String)
    ensures
        r@ == docs_injected(yaml@, pairs(maps@)),
{
    broadcast use texts_push;

    if maps.len() == 0 {
        assert(pairs(maps@).len() == 0);
        return owned(yaml);
    }
    assert(pairs(maps@).len() > 0);
    proof {
        reveal_strlit("\n---\n");
    }
    let docs = pieces(yaml, "\n---\n");
    let ghost m = pairs(maps@);
    let ghost all = split(yaml@, "\n---\n"@).map_values(|d: Seq<char>| images_injected(d, m));
    let mut out: Vec<String> = Vec::new();
    let mut i: usize = 0;
    assert(texts(out@) =~= all.take(0));
    while i < docs.len()
        invariant
            i <= docs@.len(),
            m == pairs(maps@),
            texts(docs@) == split(yaml@, "\n---\n"@),
            all == split(yaml@, "\n---\n"@).map_values(|d: Seq<char>| images_injected(d, m)),
            texts(out@) == all.take(i as int),
        decreases docs@.len() - i,
    {
        let d = inject_doc(docs[i].as_str(), maps);
        proof {
            assert(texts(docs@)[i as int] == docs@[i as int]@);
            assert(all.take(i + 1) =~= all.take(i as int).push(d@));
        }
        out.push(d);
        i += 1;
    }
    assert(all.take(i as int) =~= all);
    joined(&out, "\n---\n")
}

/// The documents that a `KubernetesApply` object has applied, or why there are none.
pub open spec fn apply_docs(s: StoreV, name: Seq<char>) -> Result<Seq<char>, Seq<char>> {
    match s.find("KubernetesApply"@, "default"@, name) {
        None => Err("KubernetesApply "@ + name + " not found"@),
        Some(o) => {
            let yaml = text_or(at(at(o.object, "spec"@), "yaml"@), Seq::empty());
            if trim(yaml).len() == 0 {
                Err("KubernetesApply "@ + name + " has no spec.yaml to apply"@)
            } else {
                Ok(docs_injected(yaml, image_maps_for(s, name)))
            }
        },
    }
}

/// A result as a mathematical object.
pub open spec fn result_view(r: Result<String, String>) -> Result<Seq<char>, Seq<char>> {
    match r {
        Ok(s) => Ok(s@),
        Err(e) => Err(e@),
    }
}

/// The documents that a `KubernetesApply` object has applied, with the images that
/// were built for it.
pub fn docs_to_apply(api: &ApiObjectStore, name: &str) -> (r: Result<String, String>)
    ensures
        result_view(r) == apply_docs(api@, name@),
{
    match api.get("KubernetesApply", "default", name) {
        None => Err(cat3("KubernetesApply ", name, " not found")),
        Some(o) => {
            let yaml = blank_or(o.object.at("spec").at("yaml"));
            if trimmed(yaml).as_str().is_empty() {
                return Err(cat3("KubernetesApply ", name, " has no spec.yaml to apply"));
            }
            let maps = resolve_image_maps_for(api, name);
            Ok(inject_image_maps(yaml, &maps))
        },
    }
}

/// The error of an outcome; empty where there is none.
pub open spec fn error_text(r: Result<(), String>) -> Seq<char> {
    match r {
        Ok(_) => Seq::empty(),
        Err(e) => e@,
    }
}

/// Takes the outcome of applying the documents of a `KubernetesApply` object and
/// records it on the object. Where there was nothing to apply, that is the error and
/// nothing is recorded.
pub fn reconcile_kubernetes_apply(
    api: &mut ApiObjectStore,
    name: &str,
    applied: Result<(), String>,
    now: &str,
) -> (r: Result<(), String>)
    requires
        old(api)@.ok(),
        old(api)@.room(1),
    ensures
        final(api)@.ok(),
        match apply_docs(old(api)@, name@) {
            Err(e) => r is Err && r->Err_0@ == e && final(api)@ == old(api)@,
            Ok(_) => r == applied && final(api)@ == old(api)@.patched(
                "KubernetesApply"@,
                "default"@,
                name@,
                status_patch(apply_status(now@, error_text(applied))),
            ),
        },
{
    match docs_to_apply(api, name) {
        Err(e) => Err(e),
        Ok(_) => {
            let error: String = match &applied {
                Ok(_) => String::new(),
                Err(e) => e.clone(),
            };
            patch_status(api, "KubernetesApply", name, apply_status_json(now, error.as_str()));
            applied
        },
    }
}

/// The selector of an object of the kind.
pub open spec fn selector_in(kind: Seq<char>, object: JsonV) -> Seq<char> {
    if kind == "KubernetesDiscovery"@ {
        discovery_selector_text(object)
    } else {
        own_selector(object)
    }
}

/// The selector of the pods that an object is about, or why there is none.
pub open spec fn selector_for(s: StoreV, kind: Seq<char>, name: Seq<char>) -> Result<
    Seq<char>,
    Seq<char>,
> {
    match s.find(kind, "default"@, name) {
        None => Err(kind + " "@ + name + " not found"@),
        Some(o) => if selector_in(kind, o.object).len() == 0 {
            Err(kind + " "@ + name + " has no selector"@)
        } else {
            Ok(selector_in(kind, o.object))
        },
    }
}

/// The selector of the pods that an object is about.
pub fn object_selector(api: &ApiObjectStore, kind: &str, name: &str) -> (r: Result<String, String>)
    ensures
        result_view(r) == selector_for(api@, kind@, name@),
{
    match api.get(kind, "default", name) {
        None => {
            let mut e = cat3(kind, " ", name);
            e.append(" not found");
            Err(e)
        },
        Some(o) => {
            let selector = if same(kind, "KubernetesDiscovery") {
                discovery_selector(&o.object)
            } else {
                pod_log_selector(&o.object)
            };
            if selector.as_str().is_empty() {
                let mut e = cat3(kind, " ", name);
                e.append(" has no selector");
                Err(e)
            } else {
                Ok(selector)
            }
        },
    }
}

/// The pods that were listed for an object's selector, or the error: first that of the
/// object, then that of the listing.
pub open spec fn pods_for(
    s: StoreV,
    kind: Seq<char>,
    name: Seq<char>,
    listing: Result<Vec<Json>, String>,
) -> Result<Seq<JsonV>, Seq<char>> {
    match selector_for(s, kind, name) {
        Err(e) => Err(e),
        Ok(_) => match listing {
            Err(e) => Err(e@),
            Ok(v) => Ok(list_view(v@)),
        },
    }
}

fn listed_pods(api: &ApiObjectStore, kind: &str, name: &str, listing: Result<Vec<Json>, String>) -> (r:
    Result<Vec<Json>, String>)
    ensures
        match r {
            Ok(v) => pods_for(api@, kind@, name@, listing) == Ok::<Seq<JsonV>, Seq<char>>(
                list_view(v@),
            ),
            Err(e) => pods_for(api@, kind@, name@, listing) == Err::<Seq<JsonV>, Seq<char>>(e@),
        },
{
    match object_selector(api, kind, name) {
        Err(e) => Err(e),
        Ok(_) => listing,
    }
}

/// The number of pods and their state, as a status.
pub open spec fn discovery_status(pods: Seq<JsonV>) -> JsonV {
    with_key(
        with_key(
            one("readyPods"@, JsonV::Int(ready_count(pods) as int)),
            "totalPods"@,
            JsonV::Int(pods.len() as int),
        ),
        "runtime"@,
        txt(pods_runtime(pods, false)),
    )
}

/// Records the state of the pods that were listed for a `KubernetesDiscovery` object.
pub fn reconcile_kubernetes_discovery(
    api: &mut ApiObjectStore,
    name: &str,
    listing: Result<Vec<Json>, String>,
) -> (r: Result<(), String>)
    requires
        old(api)@.ok(),
        old(api)@.room(1),
        listing is Ok ==> pods_fit(list_view(listing->Ok_0@)),
    ensures
        final(api)@.ok(),
        match pods_for(old(api)@, "KubernetesDiscovery"@, name@, listing) {
            Ok(pods) => r is Ok && final(api)@ == old(api)@.patched(
                "KubernetesDiscovery"@,
                "default"@,
                name@,
                status_patch(discovery_status(pods)),
            ),
            Err(e) => r is Err && r->Err_0@ == e && final(api)@ == old(api)@,
        },
{
    match listed_pods(api, "KubernetesDiscovery", name, listing) {
        Err(e) => Err(e),
        Ok(pods) => {
            proof {
                list_view_items(pods@);
            }
            let summary = aggregate_pod_status(&pods, false);
            let status = entry("readyPods", Json::Pos(summary.ready as u64)).with(
                "totalPods",
                Json::Pos(summary.total as u64),
            ).with("runtime", Json::text(summary.runtime));
            patch_status(api, "KubernetesDiscovery", name, status);
            Ok(())
        },
    }
}

/// Records each of the pods that were listed for a `KubernetesDiscovery` object.
pub fn reconcile_pod_watch(
    api: &mut ApiObjectStore,
    name: &str,
    listing: Result<Vec<Json>, String>,
) -> (r: Result<(), String>)
    requires
        old(api)@.ok(),
        old(api)@.room(1),
        listing is Ok ==> pods_fit(list_view(listing->Ok_0@)),
    ensures
        final(api)@.ok(),
        match pods_for(old(api)@, "KubernetesDiscovery"@, name@, listing) {
            Ok(pods) => r is Ok && final(api)@ == old(api)@.patched(
                "KubernetesDiscovery"@,
                "default"@,
                name@,
                status_patch(
                    one("pods"@, JsonV::List(pods.map_values(|p: JsonV| pod_record_value(p)))),
                ),
            ),
            Err(e) => r is Err && r->Err_0@ == e && final(api)@ == old(api)@,
        },
{
    match listed_pods(api, "KubernetesDiscovery", name, listing) {
        Err(e) => Err(e),
        Ok(pods) => {
            let ghost pv = list_view(pods@);
            let ghost all = pv.map_values(|p: JsonV| pod_record_value(p));
            proof {
                list_view_items(pods@);
            }
            let mut out: Vec<Json> = Vec::new();
            let mut i: usize = 0;
            assert(list_view(out@) =~= all.take(0));
            while i < pods.len()
                invariant
                    i <= pods@.len(),
                    pv == list_view(pods@),
                    pv.len() == pods@.len(),
                    pods_fit(pv),
                    forall|j: int| 0 <= j < pods@.len() ==> (#[trigger] pv[j]) == pods@[j]@,
                    all == pv.map_values(|p: JsonV| pod_record_value(p)),
                    list_view(out@) == all.take(i as int),
                decreases pods@.len() - i,
            {
                assert(sums_fit(items(container_statuses(pv[i as int]))));
                let item = pod_record(&pods[i]);
                proof {
                    list_view_push(out@, item);
                    assert(pv[i as int] == pods@[i as int]@);
                    assert(all.take(i + 1) =~= all.take(i as int).push(item@));
                }
                out.push(item);
                i += 1;
            }
            assert(all.take(i as int) =~= all);
            patch_status(api, "KubernetesDiscovery", name, entry("pods", Json::List(out)));
            Ok(())
        },
    }
}

/// The pod that ports are forwarded to, as a status.
pub open spec fn forward_status(pod: Seq<char>) -> JsonV {
    with_key(one("podName"@, txt(pod)), "ready"@, JsonV::Bool(pod.len() > 0))
}

/// Records the pod that the ports of a `PortForward` object are forwarded to: the
/// first of those that were listed.
pub fn reconcile_port_forward(
    api: &mut ApiObjectStore,
    name: &str,
    listing: Result<Vec<Json>, String>,
) -> (r: Result<(), String>)
    requires
        old(api)@.ok(),
        old(api)@.room(1),
    ensures
        final(api)@.ok(),
        match pods_for(old(api)@, "PortForward"@, name@, listing) {
            Ok(pods) => r is Ok && final(api)@ == old(api)@.patched(
                "PortForward"@,
                "default"@,
                name@,
                status_patch(forward_status(first_pod(pods))),
            ),
            Err(e) => r is Err && r->Err_0@ == e && final(api)@ == old(api)@,
        },
{
    match listed_pods(api, "PortForward", name, listing) {
        Err(e) => Err(e),
        Ok(pods) => {
            let pod = first_pod_name(&pods);
            let status = entry("podName", Json::text(pod.as_str())).with(
                "ready",
                Json::Bool(!pod.as_str().is_empty()),
            );
            patch_status(api, "PortForward", name, status);
            Ok(())
        },
    }
}

/// Records how many log lines were fetched for a `PodLogStream` object, and returns
/// the lines.
pub fn reconcile_pod_log_stream(
    api: &mut ApiObjectStore,
    name: &str,
    fetched: Result<String, String>,
) -> (r: Result<Vec<String>, String>)
    requires
        old(api)@.ok(),
        old(api)@.room(1),
    ensures
        final(api)@.ok(),
        match selector_for(old(api)@, "PodLogStream"@, name@) {
            Err(e) => r is Err && r->Err_0@ == e && final(api)@ == old(api)@,
            Ok(_) => match fetched {
                Err(e) => r == Err::<Vec<String>, String>(e) && final(api)@ == old(api)@,
                Ok(text) => r is Ok && texts(r->Ok_0@) == lines(text@) && final(api)@
                    == old(api)@.patched(
                    "PodLogStream"@,
                    "default"@,
                    name@,
                    status_patch(one("lineCount"@, JsonV::Int(lines(text@).len() as int))),
                ),
            },
        },
{
    match object_selector(api, "PodLogStream", name) {
        Err(e) => Err(e),
        Ok(_) => match fetched {
            Err(e) => Err(e),
            Ok(text) => {
                let ls = lines_of(text.as_str());
                assert(texts(ls@).len() == ls@.len());
                patch_status(
                    api,
                    "PodLogStream",
                    name,
                    entry("lineCount", Json::Pos(ls.len() as u64)),
                );
                Ok(ls)
            },
        },
    }
}

/// The service and the project of a `DockerComposeService` object; nothing where there
/// is no such object.
pub open spec fn compose_target(s: StoreV, name: Seq<char>) -> Option<(Seq<char>, Seq<char>)> {
    match s.find("DockerComposeService"@, "default"@, name) {
        Some(o) => Some(
            (
                text_or(at(at(o.object, "spec"@), "service"@), name),
                text_or(at(at(at(o.object, "spec"@), "project"@), "name"@), Seq::empty()),
            ),
        ),
        None => None,
    }
}

/// The service and the project of a `DockerComposeService` object.
pub fn compose_service(api: &ApiObjectStore, name: &str) -> (r: Option<(String, String)>)
    ensures
        match r {
            Some((s, p)) => compose_target(api@, name@) == Some((s@, p@)),
            None => compose_target(api@, name@) is None,
        },
{
    match api.get("DockerComposeService", "default", name) {
        Some(o) => Some(
            (
                owned(o.object.at("spec").at("service").str_or(name)),
                owned(blank_or(o.object.at("spec").at("project").at("name"))),
            ),
        ),
        None => None,
    }
}

/// The arguments of `docker` that ask for the state of a service.
pub open spec fn compose_argv(service: Seq<char>, project: Seq<char>) -> Seq<Seq<char>> {
    seq!["compose"@] + (if project.len() > 0 {
        seq!["-p"@, project]
    } else {
        Seq::empty()
    }) + seq!["ps"@, "--format"@, "json"@, "--all"@, service]
}

/// The arguments of `docker` that ask for the state of a service.
pub fn compose_ps_args(service: &str, project: &str) -> (r: Vec<String>)
    ensures
        texts(r@) == compose_argv(service@, project@),
{
    broadcast use texts_push;

    let mut r: Vec<String> = Vec::new();
    r.push(owned("compose"));
    if !project.is_empty() {
        r.push(owned("-p"));
        r.push(owned(project));
    }
    r.push(owned("ps"));
    r.push(owned("--format"));
    r.push(owned("json"));
    r.push(owned("--all"));
    r.push(owned(service));
    assert(texts(r@) =~= compose_argv(service@, project@));
    r
}

/// The state of a service: that of the last of the values that names it; empty where
/// none does.
pub open spec fn state_in(values: Seq<Option<JsonV>>, service: Seq<char>) -> Seq<char>
    decreases values.len(),
{
    if values.len() == 0 {
        Seq::empty()
    } else {
        match values.last() {
            Some(v) => if at(v, "Service"@) == JsonV::Text(service) {
                text_or(at(v, "State"@), Seq::empty())
            } else {
                state_in(values.drop_last(), service)
            },
            None => state_in(values.drop_last(), service),
        }
    }
}

/// The contents of values that may be absent.
pub open spec fn values_view(v: Seq<Option<Json>>) -> Seq<Option<JsonV>> {
    v.map_values(|o: Option<Json>| value_view(o))
}

/// The contents of a value that may be absent.
pub open spec fn value_view(o: Option<Json>) -> Option<JsonV> {
    match o {
        Some(j) => Some(j@),
        None => None,
    }
}

/// The state of a service: that of the last of the values that names it; empty where
/// none does.
pub fn state_of_service(values: &Vec<Option<Json>>, service: &str) -> (r: String)
    ensures
        r@ == state_in(values_view(values@), service@),
{
    let ghost all = values_view(values@);
    let mut i: usize = values.len();
    assert(all.take(i as int) =~= all);
    while i > 0
        invariant
            i <= values@.len(),
            all == values_view(values@),
            state_in(all, service@) == state_in(all.take(i as int), service@),
        decreases i,
    {
        proof {
            assert(all.take(i as int).drop_last() =~= all.take(i - 1));
            assert(all.take(i as int).last() == all[i - 1]);
        }
        if let Some(v) = &values[i - 1] {
            if let Some(s) = v.at("Service").as_str() {
                if same(s, service) {
                    return owned(blank_or(v.at("State")));
                }
            }
        }
        i -= 1;
    }
    String::new()
}

/// What the lines of an output are read as.
pub open spec fn lines_read(output: Seq<char>) -> Seq<Option<JsonV>> {
    lines(output).map_values(|l: Seq<char>| json_in(l))
}

/// What the lines of an output are read as.
pub fn read_lines(output: &str) -> (r: Vec<Option<Json>>)
    ensures
        values_view(r@) == lines_read(output@),
{
    let ls = lines_of(output);
    let ghost all = lines_read(output@);
    let mut r: Vec<Option<Json>> = Vec::new();
    let mut i: usize = 0;
    assert(values_view(r@) =~= all.take(0));
    while i < ls.len()
        invariant
            i <= ls@.len(),
            texts(ls@) == lines(output@),
            all == lines_read(output@),
            values_view(r@) == all.take(i as int),
        decreases ls@.len() - i,
    {
        let v: Option<Json> = match parse_json(ls[i].as_str()) {
            Ok(j) => Some(j),
            Err(_) => None,
        };
        let ghost before = r@;
        let ghost vv = value_view(v);
        r.push(v);
        proof {
            assert(texts(ls@)[i as int] == ls@[i as int]@);
            assert(values_view(r@) =~= values_view(before).push(vv));
            assert(all.take(i + 1) =~= all.take(i as int).push(vv));
        }
        i += 1;
    }
    assert(all.take(i as int) =~= all);
    r
}

/// The state of a service, as a status.
pub open spec fn compose_status(state: Seq<char>) -> JsonV {
    with_key(one("running"@, JsonV::Bool(state == "running"@)), "state"@, txt(state))
}

/// Records the state of the service of a `DockerComposeService` object, from the output
/// of `docker compose ps`, which prints one JSON value a line.
pub fn reconcile_docker_compose_service(
    api: &mut ApiObjectStore,
    name: &str,
    output: Result<String, String>,
) -> (r: Result<(), String>)
    requires
        old(api)@.ok(),
        old(api)@.room(1),
    ensures
        final(api)@.ok(),
        match compose_target(old(api)@, name@) {
            None => r is Err && r->Err_0@ == "DockerComposeService "@ + name@ + " not found"@
                && final(api)@ == old(api)@,
            Some((service, _)) => match output {
                Err(e) => r == Err::<(), String>(e) && final(api)@ == old(api)@,
                Ok(text) => r is Ok && final(api)@ == old(api)@.patched(
                    "DockerComposeService"@,
                    "default"@,
                    name@,
                    status_patch(compose_status(state_in(lines_read(text@), service))),
                ),
            },
        },
{
    match compose_service(api, name) {
        None => Err(cat3("DockerComposeService ", name, " not found")),
        Some((service, _)) => match output {
            Err(e) => Err(e),
            Ok(text) => {
                let state = state_of_service(&read_lines(text.as_str()), service.as_str());
                let status = entry("running", Json::Bool(same(state.as_str(), "running"))).with(
                    "state",
                    Json::text(state.as_str()),
                );
                patch_status(api, "DockerComposeService", name, status);
                Ok(())
            },
        },
    }
}

/// A step of a `LiveUpdate` object: files to copy, or arguments to run.
#[derive(Debug)]
pub enum UpdateOp {
    Sync { local: String, remote: String },
    Exec { args: Vec<String> },
}

/// A step as a mathematical object.
pub enum OpV {
    Sync(Seq<char>, Seq<char>),
    Exec(Seq<Seq<char>>),
}

impl View for UpdateOp {
    type V = OpV;

    open spec fn view(&self) -> OpV {
        match self {
            UpdateOp::Sync { local, remote } => OpV::Sync(local@, remote@),
            UpdateOp::Exec { args } => OpV::Exec(texts(args@)),
        }
    }
}

/// The contents of a list of steps.
pub open spec fn ops_view(v: Seq<UpdateOp>) -> Seq<OpV> {
    v.map_values(|o: UpdateOp| o@)
}

/// The copies of a `LiveUpdate` object, those without a source or a target left out.
pub open spec fn sync_ops(entries: Seq<JsonV>) -> Seq<OpV>
    decreases entries.len(),
{
    if entries.len() == 0 {
        Seq::empty()
    } else {
        let rest = sync_ops(entries.drop_last());
        let local = text_or(at(entries.last(), "localPath"@), Seq::empty());
        let remote = text_or(at(entries.last(), "containerPath"@), Seq::empty());
        if local.len() == 0 || remote.len() == 0 {
            rest
        } else {
            rest.push(OpV::Sync(local, remote))
        }
    }
}

/// The texts of a list, empty ones for other values.
pub open spec fn texts_in(v: JsonV) -> Seq<Seq<char>> {
    items(v).map_values(|x: JsonV| text_or(x, Seq::empty()))
}

/// The commands of a `LiveUpdate` object, those without arguments left out.
pub open spec fn exec_ops(entries: Seq<JsonV>) -> Seq<OpV>
    decreases entries.len(),
{
    if entries.len() == 0 {
        Seq::empty()
    } else {
        let rest = exec_ops(entries.drop_last());
        let args = texts_in(at(entries.last(), "args"@));
        if args.len() == 0 {
            rest
        } else {
            rest.push(OpV::Exec(args))
        }
    }
}

/// The steps of a `LiveUpdate` object: copies first, then commands.
pub open spec fn update_ops(object: JsonV) -> Seq<OpV> {
    sync_ops(items(at(at(object, "spec"@), "syncs"@))) + exec_ops(
        items(at(at(object, "spec"@), "execs"@)),
    )
}

fn text_items(v: &Json) -> (r: Vec<String>)
    ensures
        texts(r@) == texts_in(v@),
{
    broadcast use texts_push;

    let mut r: Vec<String> = Vec::new();
    let ghost all = texts_in(v@);
    assert(texts(r@) =~= all.take(0));
    match v.as_list() {
        Some(l) => {
            let ghost lv = list_view(l@);
            proof {
                list_view_items(l@);
            }
            let mut i: usize = 0;
            while i < l.len()
                invariant
                    i <= l@.len(),
                    lv == list_view(l@),
                    lv.len() == l@.len(),
                    items(v@) == lv,
                    forall|j: int| 0 <= j < l@.len() ==> (#[trigger] lv[j]) == l@[j]@,
                    all == texts_in(v@),
                    texts(r@) == all.take(i as int),
                decreases l@.len() - i,
            {
                let s = owned(blank_or(&l[i]));
                proof {
                    assert(lv[i as int] == l@[i as int]@);
                    assert(all.take(i + 1) =~= all.take(i as int).push(s@));
                }
                r.push(s);
                i += 1;
            }
            assert(all.take(i as int) =~= all);
            r
        },
        None => {
            assert(all.take(0) =~= all);
            r
        },
    }
}

/// The steps of a `LiveUpdate` object.
pub fn live_update_ops(object: &Json) -> (r: Vec<UpdateOp>)
    ensures
        ops_view(r@) == update_ops(object@),
{
    let spec = object.at("spec");
    let mut r: Vec<UpdateOp> = Vec::new();
    let ghost syncs = items(at(at(object@, "spec"@), "syncs"@));
    let ghost execs = items(at(at(object@, "spec"@), "execs"@));
    assert(ops_view(r@) =~= sync_ops(syncs.take(0)));
    match spec.at("syncs").as_list() {
        Some(l) => {
            proof {
                list_view_items(l@);
            }
            let mut i: usize = 0;
            while i < l.len()
                invariant
                    i <= l@.len(),
                    syncs == list_view(l@),
                    syncs.len() == l@.len(),
                    forall|j: int| 0 <= j < l@.len() ==> (#[trigger] syncs[j]) == l@[j]@,
                    ops_view(r@) == sync_ops(syncs.take(i as int)),
                decreases l@.len() - i,
            {
                proof {
                    assert(syncs.take(i + 1).drop_last() =~= syncs.take(i as int));
                    assert(syncs.take(i + 1).last() == syncs[i as int]);
                }
                let local = blank_or(l[i].at("localPath"));
                let remote = blank_or(l[i].at("containerPath"));
                if !local.is_empty() && !remote.is_empty() {
                    let op = UpdateOp::Sync { local: owned(local), remote: owned(remote) };
                    let ghost before = r@;
                    r.push(op);
                    assert(ops_view(r@) =~= ops_view(before).push(op@));
                }
                i += 1;
            }
            assert(syncs.take(i as int) =~= syncs);
        },
        None => {
            assert(syncs.take(0) =~= syncs);
        },
    }
    let ghost first = ops_view(r@);
    assert(ops_view(r@) =~= first + exec_ops(execs.take(0)));
    match spec.at("execs").as_list() {
        Some(l) => {
            proof {
                list_view_items(l@);
            }
            let mut i: usize = 0;
            while i < l.len()
                invariant
                    i <= l@.len(),
                    execs == list_view(l@),
                    execs.len() == l@.len(),
                    forall|j: int| 0 <= j < l@.len() ==> (#[trigger] execs[j]) == l@[j]@,
                    ops_view(r@) == first + exec_ops(execs.take(i as int)),
                decreases l@.len() - i,
            {
                proof {
                    assert(execs.take(i + 1).drop_last() =~= execs.take(i as int));
                    assert(execs.take(i + 1).last() == execs[i as int]);
                }
                let args = text_items(l[i].at("args"));
                assert(texts(args@).len() == args@.len());
                if args.len() > 0 {
                    let op = UpdateOp::Exec { args };
                    let ghost before = r@;
                    r.push(op);
                    assert(ops_view(r@) =~= ops_view(before).push(op@));
                    assert(ops_view(r@) =~= first + exec_ops(execs.take(i as int)).push(op@));
                }
                i += 1;
            }
            assert(execs.take(i as int) =~= execs);
        },
        None => {
            assert(execs.take(0) =~= execs);
        },
    }
    r
}

/// The steps that are carried out of the copies and commands that a resource declares:
/// copies with a source and a target first, then commands.
pub open spec fn declared_ops(steps: Seq<LiveUpdateStep>) -> Seq<OpV> {
    declared_syncs(steps) + declared_runs(steps)
}

/// The copies, those without a source or a target left out.
pub open spec fn declared_syncs(steps: Seq<LiveUpdateStep>) -> Seq<OpV>
    decreases steps.len(),
{
    if steps.len() == 0 {
        Seq::empty()
    } else {
        let rest = declared_syncs(steps.drop_last());
        match steps.last() {
            LiveUpdateStep::Sync { local, remote } => if local@.len() == 0 || remote@.len() == 0 {
                rest
            } else {
                rest.push(OpV::Sync(local@, remote@))
            },
            _ => rest,
        }
    }
}

/// The commands.
pub open spec fn declared_runs(steps: Seq<LiveUpdateStep>) -> Seq<OpV>
    decreases steps.len(),
{
    if steps.len() == 0 {
        Seq::empty()
    } else {
        let rest = declared_runs(steps.drop_last());
        match steps.last() {
            LiveUpdateStep::Run { cmd, .. } => rest.push(OpV::Exec(seq![cmd@])),
            _ => rest,
        }
    }
}

proof fn syncs_read(steps: Seq<LiveUpdateStep>)
    ensures
        sync_ops(sync_entries(steps)) == declared_syncs(steps),
    decreases steps.len(),
{
    if steps.len() > 0 {
        syncs_read(steps.drop_last());
        if let LiveUpdateStep::Sync { local, remote } = steps.last() {
            let a = one("localPath"@, txt(local@));
            reveal_strlit("localPath");
            reveal_strlit("containerPath");
            assert("localPath"@[0] != "containerPath"@[0]);
            lookup_put(Seq::empty(), "localPath"@, txt(local@), "localPath"@);
            lookup_put(a->Table_0, "containerPath"@, txt(remote@), "localPath"@);
            lookup_put(a->Table_0, "containerPath"@, txt(remote@), "containerPath"@);
            assert(sync_entries(steps).drop_last() =~= sync_entries(steps.drop_last()));
        }
    }
}

proof fn runs_read(steps: Seq<LiveUpdateStep>)
    ensures
        exec_ops(exec_entries(steps)) == declared_runs(steps),
    decreases steps.len(),
{
    if steps.len() > 0 {
        runs_read(steps.drop_last());
        if let LiveUpdateStep::Run { cmd, triggers, .. } = steps.last() {
            let args = JsonV::List(seq![txt(cmd@)]);
            let paths = text_list(texts(triggers@));
            let a = one("args"@, args);
            reveal_strlit("args");
            reveal_strlit("triggerPaths");
            assert("args"@[0] != "triggerPaths"@[0]);
            lookup_put(Seq::empty(), "args"@, args, "args"@);
            lookup_put(a->Table_0, "triggerPaths"@, paths, "args"@);
            assert(texts_in(args) =~= seq![cmd@]);
            assert(exec_entries(steps).drop_last() =~= exec_entries(steps.drop_last()));
        }
    }
}

/// The controller carries out the copies and commands that a resource declares: the
/// `LiveUpdate` object of a resource is read as it was written.
pub proof fn live_update_round_trip(m: Manifest)
    ensures
        update_ops(live_update_value(m)) == declared_ops(m.live_update@),
{
    let steps = m.live_update@;
    let syncs = JsonV::List(sync_entries(steps));
    let execs = JsonV::List(exec_entries(steps));
    let stops = text_list(fallback_paths(steps));
    let restart = JsonV::Bool(restarts(steps));
    reveal_strlit("syncs");
    reveal_strlit("execs");
    reveal_strlit("stopPaths");
    reveal_strlit("restart");
    reveal_strlit("selector");
    assert("syncs"@.len() == 5 && "execs"@.len() == 5 && "stopPaths"@.len() == 9
        && "restart"@.len() == 7 && "selector"@.len() == 8);
    assert("syncs"@[0] != "execs"@[0]);
    let a = one("syncs"@, syncs);
    let b = with_key(a, "execs"@, execs);
    let c = with_key(b, "stopPaths"@, stops);
    let d = with_key(c, "restart"@, restart);
    let e = with_key(d, "selector"@, selector(m));
    lookup_put(Seq::empty(), "syncs"@, syncs, "syncs"@);
    lookup_put(a->Table_0, "execs"@, execs, "syncs"@);
    lookup_put(a->Table_0, "execs"@, execs, "execs"@);
    lookup_put(b->Table_0, "stopPaths"@, stops, "syncs"@);
    lookup_put(b->Table_0, "stopPaths"@, stops, "execs"@);
    lookup_put(c->Table_0, "restart"@, restart, "syncs"@);
    lookup_put(c->Table_0, "restart"@, restart, "execs"@);
    lookup_put(d->Table_0, "selector"@, selector(m), "syncs"@);
    lookup_put(d->Table_0, "selector"@, selector(m), "execs"@);
    lookup_put(Seq::empty(), "spec"@, e, "spec"@);
    syncs_read(steps);
    runs_read(steps);
}

/// The arguments of `kubectl` that carry out a step.
pub fn op_command(op: &UpdateOp, pod: &str) -> (r: Vec<String>)
    ensures
        texts(r@) == (match op@ {
            OpV::Sync(local, remote) => seq!["cp"@, local, pod@ + ":"@ + remote],
            OpV::Exec(args) => seq!["exec"@, pod@, "--"@, "sh"@, "-c"@, join(args, " "@)],
        }),
{
    match op {
        UpdateOp::Sync { local, remote } => {
            let r: Vec<String> = vec![
                owned("cp"),
                local.clone(),
                cat3(pod, ":", remote.as_str()),
            ];
            assert(texts(r@) =~= seq!["cp"@, local@, pod@ + ":"@ + remote@]);
            r
        },
        UpdateOp::Exec { args } => {
            let r: Vec<String> = vec![
                owned("exec"),
                owned(pod),
                owned("--"),
                owned("sh"),
                owned("-c"),
                joined(args, " "),
            ];
            assert(texts(r@) =~= seq![
                "exec"@,
                pod@,
                "--"@,
                "sh"@,
                "-c"@,
                join(texts(args@), " "@),
            ]);
            r
        },
    }
}

/// The message of a step that failed.
pub open spec fn op_failure(op: OpV, error: Seq<char>) -> Seq<char> {
    match op {
        OpV::Sync(local, remote) => "sync "@ + local + " -> "@ + remote + " failed: "@ + error,
        OpV::Exec(args) => "exec "@ + debug_list(args) + " failed: "@ + error,
    }
}

/// The message of a step that failed.
pub fn op_failed(op: &UpdateOp, error: &str) -> (r: String)
    ensures
        r@ == op_failure(op@, error@),
{
    match op {
        UpdateOp::Sync { local, remote } => {
            let mut r = cat3("sync ", local.as_str(), " -> ");
            r.append(remote.as_str());
            r.append(" failed: ");
            r.append(error);
            r
        },
        UpdateOp::Exec { args } => {
            let mut r = cat3("exec ", debug_texts(args).as_str(), " failed: ");
            r.append(error);
            r
        },
    }
}

/// The outcome of a live update, as a status.
pub open spec fn update_status(pod: Seq<char>, now: Seq<char>, failure: Option<Seq<char>>) -> JsonV {
    with_key(
        with_key(
            with_key(one("podName"@, txt(pod)), "lastExecTime"@, txt(now)),
            "failed"@,
            JsonV::Bool(failure is Some),
        ),
        "message"@,
        txt(
            match failure {
                Some(m) => m,
                None => Seq::empty(),
            },
        ),
    )
}

/// The status of a live update that found no pod.
pub open spec fn no_pod_status() -> JsonV {
    with_key(
        with_key(one("podName"@, txt(Seq::empty())), "failed"@, JsonV::Bool(true)),
        "message"@,
        txt("no target pod"@),
    )
}

/// Records the outcome of a `LiveUpdate` object: whether there was a pod to update,
/// and the failure of the first step that failed.
pub fn reconcile_live_update(
    api: &mut ApiObjectStore,
    name: &str,
    listing: Result<Vec<Json>, String>,
    failure: Option<String>,
    now: &str,
) -> (r: Result<(), String>)
    requires
        old(api)@.ok(),
        old(api)@.room(1),
    ensures
        final(api)@.ok(),
        match pods_for(old(api)@, "LiveUpdate"@, name@, listing) {
            Err(e) => r is Err && r->Err_0@ == e && final(api)@ == old(api)@,
            Ok(pods) => if first_pod(pods).len() == 0 {
                r is Err && r->Err_0@ == "LiveUpdate "@ + name@ + ": no target pod"@ && final(api)@
                    == old(api)@.patched(
                    "LiveUpdate"@,
                    "default"@,
                    name@,
                    status_patch(no_pod_status()),
                )
            } else {
                r == (match failure {
                    Some(e) => Err::<(), String>(e),
                    None => Ok::<(), String>(()),
                }) && final(api)@ == old(api)@.patched(
                    "LiveUpdate"@,
                    "default"@,
                    name@,
                    status_patch(update_status(first_pod(pods), now@, opt_text(failure))),
                )
            },
        },
{
    match listed_pods(api, "LiveUpdate", name, listing) {
        Err(e) => Err(e),
        Ok(pods) => {
            let pod = first_pod_name(&pods);
            if pod.as_str().is_empty() {
                let none = String::new();
                assert(none@ =~= Seq::empty());
                let status = entry("podName", Json::Text(none)).with("failed", Json::Bool(true)).with(
                    "message",
                    Json::text("no target pod"),
                );
                patch_status(api, "LiveUpdate", name, status);
                return Err(cat3("LiveUpdate ", name, ": no target pod"));
            }
            let message: String = match &failure {
                Some(m) => m.clone(),
                None => String::new(),
            };
            let status = entry("podName", Json::text(pod.as_str())).with(
                "lastExecTime",
                Json::text(now),
            ).with("failed", Json::Bool(failure.is_some())).with("message", Json::Text(message));
            patch_status(api, "LiveUpdate", name, status);
            match failure {
                Some(e) => Err(e),
                None => Ok(()),
            }
        },
    }
}

/// The steps of a `LiveUpdate` object, taken one after the other until one fails.
#[derive(Debug)]
pub struct OpsRun {
    ops: Vec<UpdateOp>,
    next: usize,
    failure: Option<String>,
}

/// The steps of a `LiveUpdate` object under way: those that are left, and the message of
/// the one that failed.
pub struct OpsRunV {
    pub left: Seq<OpV>,
    pub failure: Option<Seq<char>>,
}

/// The run after the step that was next ended: where it failed, no step is left.
pub open spec fn op_done(run: OpsRunV, outcome: Result<(), Seq<char>>) -> OpsRunV {
    if run.left.len() == 0 {
        run
    } else {
        match outcome {
            Ok(_) => OpsRunV { left: run.left.drop_first(), ..run },
            Err(e) => OpsRunV { left: Seq::empty(), failure: Some(op_failure(run.left[0], e)) },
        }
    }
}

/// The run after steps ended, one after the other.
pub open spec fn ops_done(run: OpsRunV, outcomes: Seq<Result<(), Seq<char>>>) -> OpsRunV
    decreases outcomes.len(),
{
    if outcomes.len() == 0 {
        run
    } else {
        op_done(ops_done(run, outcomes.drop_last()), outcomes.last())
    }
}

impl View for OpsRun {
    type V = OpsRunV;

    closed spec fn view(&self) -> OpsRunV {
        OpsRunV {
            left: if self.failure is Some {
                Seq::empty()
            } else {
                ops_view(self.ops@).skip(self.next as int)
            },
            failure: opt_text(self.failure),
        }
    }
}

impl OpsRun {
    /// Whether the next step is one of the object's or behind them.
    pub closed spec fn ok(self) -> bool {
        self.next <= self.ops@.len()
    }

    /// The steps of a `LiveUpdate` object, none of them taken yet.
    pub fn new(object: &Json) -> (r: OpsRun)
        ensures
            r.ok(),
            r@ == (OpsRunV { left: update_ops(object@), failure: None }),
    {
        let ops = live_update_ops(object);
        assert(ops_view(ops@).skip(0) =~= ops_view(ops@));
        OpsRun { ops, next: 0, failure: None }
    }

    /// The step that is taken next, where one is left.
    pub fn next(&self) -> (r: Option<&UpdateOp>)
        requires
            self.ok(),
        ensures
            match r {
                Some(op) => self@.left.len() > 0 && op@ == self@.left[0],
                None => self@.left.len() == 0,
            },
    {
        if self.failure.is_some() || self.next >= self.ops.len() {
            None
        } else {
            let op = &self.ops[self.next];
            assert(op@ == ops_view(self.ops@)[self.next as int]);
            Some(op)
        }
    }

    /// Takes how the step that was next ended: after a failure no step is taken.
    pub fn on_ended(&mut self, outcome: Result<(), String>)
        requires
            old(self).ok(),
        ensures
            final(self).ok(),
            final(self)@ == op_done(
                old(self)@,
                match outcome {
                    Ok(_) => Ok(()),
                    Err(e) => Err(e@),
                },
            ),
    {
        if self.failure.is_some() || self.next >= self.ops.len() {
            return;
        }
        let ghost all = ops_view(self.ops@);
        match outcome {
            Ok(_) => {
                self.next = self.next + 1;
                assert(all.skip(self.next - 1).drop_first() =~= all.skip(self.next as int));
            },
            Err(e) => {
                assert(all[self.next as int] == self.ops@[self.next as int]@);
                self.failure = Some(op_failed(&self.ops[self.next], e.as_str()));
            },
        }
    }

    /// The message of the step that failed, if one did.
    pub fn failure(self) -> (r: Option<String>)
        ensures
            opt_text(r) == self@.failure,
    {
        self.failure
    }
}

/// No step is taken once one failed: whatever ends then, the run stays as it is.
pub proof fn failed_once(
    run: OpsRunV,
    outcomes: Seq<Result<(), Seq<char>>>,
    more: Seq<Result<(), Seq<char>>>,
)
    requires
        run.failure is None,
        ops_done(run, outcomes).failure is Some,
    ensures
        ops_done(run, outcomes).left.len() == 0,
        ops_done(run, outcomes + more) == ops_done(run, outcomes),
    decreases more.len(),
{
    failed_is_over(run, outcomes);
    if more.len() == 0 {
        assert(outcomes + more =~= outcomes);
    } else {
        assert((outcomes + more).drop_last() =~= outcomes + more.drop_last());
        assert((outcomes + more).last() == more.last());
        failed_once(run, outcomes, more.drop_last());
    }
}

proof fn failed_is_over(run: OpsRunV, outcomes: Seq<Result<(), Seq<char>>>)
    requires
        run.failure is None,
    ensures
        ops_done(run, outcomes).failure is Some ==> ops_done(run, outcomes).left.len() == 0,
    decreases outcomes.len(),
{
    if outcomes.len() > 0 {
        failed_is_over(run, outcomes.drop_last());
    }
}

} // verus!
