//! Image references and image builds.

use vstd::prelude::*;
use vstd::string::*;
use vstd::utf8::{encode_utf8, is_char_boundary};

use crate::manifest::DockerBuild;
use crate::paths::{file_name, file_name_of, join_path, joined_path, relative, relative_to};
use crate::text::{
    begins, byte_prefix, cat, cat3, chars_of, clone_pairs, cut, first_bytes, has, join, joined,
    matches_at, occurs, opt_text, owned, pairs, rfind, rfind_from, slice_text, split_once,
    starts_with, strip_prefix, texts, texts_push, without_prefix,
};

verus! {

/// Where a Dockerfile that is given inline stands in the build context.
pub const GENERATED_DOCKERFILE: &'static str = ".starling/Dockerfile.generated";

/// The flag before each of the values.
pub open spec fn each(flag: Seq<char>, values: Seq<Seq<char>>) -> Seq<Seq<char>>
    decreases values.len(),
{
    if values.len() == 0 {
        Seq::empty()
    } else {
        each(flag, values.drop_last()).push(flag).push(values.last())
    }
}

/// The flag before the value, where there is one.
pub open spec fn maybe(flag: Seq<char>, value: Option<Seq<char>>) -> Seq<Seq<char>> {
    match value {
        Some(v) => seq![flag, v],
        None => Seq::empty(),
    }
}

/// Keys and values, joined by an equals sign.
pub open spec fn assignments(p: Seq<(Seq<char>, Seq<char>)>) -> Seq<Seq<char>> {
    p.map_values(|e: (Seq<char>, Seq<char>)| e.0 + "="@ + e.1)
}

/// The arguments of `docker` for an image build.
pub open spec fn build_argv(db: DockerBuild, dockerfile: Option<Seq<char>>) -> Seq<Seq<char>> {
    let file = match dockerfile {
        Some(d) => Some(d),
        None => opt_text(db.dockerfile),
    };
    seq!["build"@, "-t"@, db.image_ref@] + each("-t"@, texts(db.extra_tags@)) + maybe("-f"@, file)
        + maybe("--target"@, opt_text(db.target)) + maybe("--platform"@, opt_text(db.platform))
        + maybe("--network"@, opt_text(db.network)) + (if db.pull {
        seq!["--pull"@]
    } else {
        Seq::empty()
    }) + each("--build-arg"@, assignments(pairs(db.build_args@))) + each(
        "--cache-from"@,
        texts(db.cache_from@),
    ) + each("--ssh"@, texts(db.ssh@)) + each("--secret"@, texts(db.secrets@)) + each(
        "--add-host"@,
        texts(db.extra_hosts@),
    ) + seq![db.context@]
}

/// Adds the flag before each of the values.
fn push_each(a: &mut Vec<String>, flag: &str, values: &Vec<String>)
    ensures
        texts(final(a)@) == texts(old(a)@) + each(flag@, texts(values@)),
{
    broadcast use texts_push;

    let ghost all = texts(values@);
    let ghost a0 = texts(a@);
    let mut i: usize = 0;
    assert(a0 =~= a0 + each(flag@, all.take(0)));
    while i < values.len()
        invariant
            i <= values@.len(),
            all == texts(values@),
            texts(a@) == a0 + each(flag@, all.take(i as int)),
        decreases values@.len() - i,
    {
        let ghost given = each(flag@, all.take(i as int));
        a.push(owned(flag));
        assert(texts(a@) == (a0 + given).push(flag@));
        a.push(values[i].clone());
        assert(texts(a@) == (a0 + given).push(flag@).push(values@[i as int]@));
        proof {
            assert(all.take(i + 1).drop_last() =~= all.take(i as int));
            assert(all.take(i + 1).last() == values@[i as int]@);
            assert(texts(a@) =~= a0 + each(flag@, all.take(i + 1)));
        }
        i += 1;
    }
    assert(all.take(i as int) =~= all);
}

/// Adds the flag before the value, where there is one.
fn push_maybe(a: &mut Vec<String>, flag: &str, value: &Option<String>)
    ensures
        texts(final(a)@) == texts(old(a)@) + maybe(flag@, opt_text(*value)),
{
    broadcast use texts_push;

    let ghost a0 = texts(a@);
    match value {
        Some(v) => {
            a.push(owned(flag));
            a.push(v.clone());
            assert(texts(a@) =~= a0 + seq![flag@, v@]);
        },
        None => {
            assert(a0 =~= a0 + Seq::empty());
        },
    }
}

/// Keys and values, joined by an equals sign.
pub fn assignment_texts(p: &Vec<(String, String)>) -> (r: Vec<String>)
    ensures
        texts(r@) == assignments(pairs(p@)),
{
    broadcast use texts_push;

    let mut r: Vec<String> = Vec::new();
    let mut i: usize = 0;
    assert(texts(r@) =~= assignments(pairs(p@)).take(0));
    while i < p.len()
        invariant
            i <= p@.len(),
            texts(r@) == assignments(pairs(p@)).take(i as int),
        decreases p@.len() - i,
    {
        let item = cat3(p[i].0.as_str(), "=", p[i].1.as_str());
        proof {
            assert(pairs(p@)[i as int] == (p@[i as int].0@, p@[i as int].1@));
            assert(item@ == assignments(pairs(p@))[i as int]);
            assert(assignments(pairs(p@)).take(i + 1) =~= assignments(pairs(p@)).take(
                i as int,
            ).push(item@));
        }
        r.push(item);
        i += 1;
    }
    assert(assignments(pairs(p@)).take(i as int) =~= assignments(pairs(p@)));
    r
}

/// The arguments of `docker` for an image build, with every option that the build
/// declares. A Dockerfile that is given takes the place of the declared one.
pub fn docker_build_args(db: &DockerBuild, dockerfile: Option<&str>) -> (r: Vec<String>)
    ensures
        texts(r@) == build_argv(
            *db,
            match dockerfile {
                Some(d) => Some(d@),
                None => None,
            },
        ),
{
    let mut a: Vec<String> = Vec::new();
    a.push(owned("build"));
    a.push(owned("-t"));
    a.push(db.image_ref.clone());
    assert(texts(a@) =~= seq!["build"@, "-t"@, db.image_ref@]);
    push_each(&mut a, "-t", &db.extra_tags);
    let file: Option<String> = match dockerfile {
        Some(d) => Some(owned(d)),
        None => db.dockerfile.clone(),
    };
    push_maybe(&mut a, "-f", &file);
    push_maybe(&mut a, "--target", &db.target);
    push_maybe(&mut a, "--platform", &db.platform);
    push_maybe(&mut a, "--network", &db.network);
    let ghost before = texts(a@);
    if db.pull {
        a.push(owned("--pull"));
        assert(texts(a@) =~= before + seq!["--pull"@]);
    } else {
        assert(before =~= before + Seq::empty());
    }
    push_each(&mut a, "--build-arg", &assignment_texts(&db.build_args));
    push_each(&mut a, "--cache-from", &db.cache_from);
    push_each(&mut a, "--ssh", &db.ssh);
    push_each(&mut a, "--secret", &db.secrets);
    push_each(&mut a, "--add-host", &db.extra_hosts);
    let ghost last = texts(a@);
    a.push(db.context.clone());
    assert(texts(a@) =~= last + seq![db.context@]);
    a
}

/// The digest that an image reference is pinned to.
pub open spec fn pinned_digest(image_ref: Seq<char>) -> Option<Seq<char>> {
    match split_once(image_ref, "@"@) {
        Some((_, d)) => if starts_with(d, "sha256:"@) {
            Some(d)
        } else {
            None
        },
        None => None,
    }
}

/// The digest that an image reference is pinned to, if any.
pub fn digest_from_ref(image_ref: &str) -> (r: Option<String>)
    ensures
        opt_text(r) == pinned_digest(image_ref@),
{
    match cut(image_ref, "@") {
        Some((_, d)) => if begins(d.as_str(), "sha256:") {
            Some(d)
        } else {
            None
        },
        None => None,
    }
}

/// The digits of a digest, without the name of the algorithm.
pub open spec fn digest_hex(digest: Seq<char>) -> Seq<char> {
    match without_prefix(digest, "sha256:"@) {
        Some(h) => h,
        None => digest,
    }
}

/// How many bytes of the digits go into a tag.
pub open spec fn tag_bytes(digest: Seq<char>) -> int {
    let n = encode_utf8(digest_hex(digest)).len();
    if n < 12 {
        n as int
    } else {
        12
    }
}

/// Whether the first twelve bytes of the digits end where a character ends.
pub open spec fn digest_cuts(digest: Seq<char>) -> bool {
    is_char_boundary(encode_utf8(digest_hex(digest)), tag_bytes(digest))
}

/// The tag derived from a digest.
pub open spec fn tag_of(digest: Seq<char>) -> Seq<char> {
    "starling-"@ + byte_prefix(digest_hex(digest), tag_bytes(digest))
}

/// Whether a tag can be cut out of a digest.
pub fn can_tag(digest: &str) -> (r: bool)
    ensures
        r == digest_cuts(digest@),
{
    let hex: String = match strip_prefix(digest, "sha256:") {
        Some(h) => h,
        None => owned(digest),
    };
    let len: usize = hex.as_str().as_bytes().len();
    hex.as_str().is_char_boundary(if len < 12 {
        len
    } else {
        12
    })
}

/// A short tag derived from the digest of an image, so that each build has its own
/// and an unchanged one the same.
pub fn immutable_image_tag(digest: &str) -> (r: String)
    requires
        digest_cuts(digest@),
    ensures
        r@ == tag_of(digest@),
{
    let hex: String = match strip_prefix(digest, "sha256:") {
        Some(h) => h,
        None => owned(digest),
    };
    let len: usize = hex.as_str().as_bytes().len();
    let n: usize = if len < 12 {
        len
    } else {
        12
    };
    cat("starling-", first_bytes(hex.as_str(), n).as_str())
}

/// An image reference without its tag, and the tag; `latest` where there is none.
/// A colon before the last slash belongs to the registry.
pub open spec fn repo_and_tag(image_ref: Seq<char>) -> (Seq<char>, Seq<char>) {
    let slash = rfind_from(image_ref, "/"@, image_ref.len() as int);
    match rfind_from(image_ref, ":"@, image_ref.len() as int) {
        Some(colon) => if slash is None || colon > slash->0 {
            (image_ref.take(colon), image_ref.skip(colon + 1))
        } else {
            (image_ref, "latest"@)
        },
        None => (image_ref, "latest"@),
    }
}

/// An image reference without its tag, and the tag.
pub fn image_ref_repo_and_tag(image_ref: &str) -> (r: (String, String))
    ensures
        (r.0@, r.1@) == repo_and_tag(image_ref@),
{
    let cs = chars_of(image_ref);
    let slash = rfind(&cs, &chars_of("/"));
    let colon = rfind(&cs, &chars_of(":"));
    proof {
        reveal_strlit(":");
    }
    if let Some(c) = colon {
        let tagged = match slash {
            Some(s) => c > s,
            None => true,
        };
        if tagged {
            assert(matches_at(image_ref@, ":"@, c as int));
            assert(c + 1 <= cs.len());
            assert(cs@.subrange(0, c as int) =~= cs@.take(c as int));
            assert(cs@.subrange(c + 1, cs@.len() as int) =~= cs@.skip(c + 1));
            return (slice_text(&cs, 0, c), slice_text(&cs, c + 1, cs.len()));
        }
    }
    (owned(image_ref), owned("latest"))
}

/// The reference under which a build is deployed.
pub open spec fn content_ref(image_ref: Seq<char>, digest: Seq<char>) -> Seq<char> {
    repo_and_tag(image_ref).0 + ":"@ + tag_of(digest)
}

/// The reference under which a build is deployed: its repository with a tag that
/// is derived from its digest.
pub fn content_addressed_ref(image_ref: &str, digest: &str) -> (r: String)
    requires
        digest_cuts(digest@),
    ensures
        r@ == content_ref(image_ref@, digest@),
{
    let (repo, _) = image_ref_repo_and_tag(image_ref);
    cat3(repo.as_str(), ":", immutable_image_tag(digest).as_str())
}

/// The reference that the command of a custom build is asked to produce.
pub open spec fn expected_ref(db: DockerBuild) -> Seq<char> {
    match db.custom_tag {
        Some(tag) => if occurs(tag@, "/"@) {
            tag@
        } else {
            repo_and_tag(db.image_ref@).0 + ":"@ + tag@
        },
        None => db.image_ref@,
    }
}

/// The reference that the command of a custom build is asked to produce: its tag
/// where that is a whole reference, else its repository with that tag.
pub fn custom_build_expected_ref(db: &DockerBuild) -> (r: String)
    ensures
        r@ == expected_ref(*db),
{
    match &db.custom_tag {
        Some(tag) => if has(tag.as_str(), "/") {
            tag.clone()
        } else {
            let (repo, _) = image_ref_repo_and_tag(db.image_ref.as_str());
            cat3(repo.as_str(), ":", tag.as_str())
        },
        None => db.image_ref.clone(),
    }
}

/// Extra hosts as one text, if there are any.
pub fn docker_extra_hosts(hosts: &Vec<String>) -> (r: Option<String>)
    ensures
        opt_text(r) == (if hosts@.len() == 0 {
            None
        } else {
            Some(join(texts(hosts@), ","@))
        }),
{
    if hosts.len() == 0 {
        None
    } else {
        Some(joined(hosts, ","))
    }
}

/// The name of the Dockerfile in the build context.
pub open spec fn dockerfile_name(db: DockerBuild) -> Seq<char> {
    if db.dockerfile_contents is Some {
        ".starling/Dockerfile.generated"@
    } else {
        match db.dockerfile {
            Some(p) => match file_name(p@) {
                Some(n) => n,
                None => "Dockerfile"@,
            },
            None => "Dockerfile"@,
        }
    }
}

/// The name of the Dockerfile in the build context.
pub fn dockerfile_name_for_build(db: &DockerBuild) -> (r: String)
    ensures
        r@ == dockerfile_name(*db),
{
    if db.dockerfile_contents.is_some() {
        return owned(".starling/Dockerfile.generated");
    }
    match &db.dockerfile {
        Some(p) => match file_name_of(p.as_str()) {
            Some(n) => n,
            None => owned("Dockerfile"),
        },
        None => owned("Dockerfile"),
    }
}

/// The options of an image build through the Docker API.
#[derive(Debug)]
pub struct ImageOptions {
    pub dockerfile: String,
    pub t: String,
    pub rm: bool,
    pub forcerm: bool,
    pub buildargs: Vec<(String, String)>,
    pub cachefrom: Vec<String>,
    pub pull: bool,
    pub networkmode: String,
    pub extrahosts: Option<String>,
    pub target: String,
    pub platform: String,
}

/// The text, or the empty one where there is none.
pub open spec fn or_empty(o: Option<String>) -> Seq<char> {
    match o {
        Some(s) => s@,
        None => Seq::empty(),
    }
}

fn text_or_empty(o: &Option<String>) -> (r: String)
    ensures
        r@ == or_empty(*o),
{
    match o {
        Some(s) => s.clone(),
        None => String::new(),
    }
}

/// The options of an image build through the Docker API.
pub fn build_image_options(db: &DockerBuild) -> (r: ImageOptions)
    ensures
        r.dockerfile@ == dockerfile_name(*db),
        r.t@ == db.image_ref@,
        r.rm && r.forcerm,
        r.buildargs@ == db.build_args@,
        r.cachefrom@ == db.cache_from@,
        r.pull == db.pull,
        r.networkmode@ == or_empty(db.network),
        opt_text(r.extrahosts) == (if db.extra_hosts@.len() == 0 {
            None
        } else {
            Some(join(texts(db.extra_hosts@), ","@))
        }),
        r.target@ == or_empty(db.target),
        r.platform@ == or_empty(db.platform),
{
    ImageOptions {
        dockerfile: dockerfile_name_for_build(db),
        t: db.image_ref.clone(),
        rm: true,
        forcerm: true,
        buildargs: clone_pairs(&db.build_args),
        cachefrom: db.cache_from.clone(),
        pull: db.pull,
        networkmode: text_or_empty(&db.network),
        extrahosts: docker_extra_hosts(&db.extra_hosts),
        target: text_or_empty(&db.target),
        platform: text_or_empty(&db.platform),
    }
}

/// The paths that a build context is limited to: those of the config, and the
/// Dockerfile where it lies in the context. None of them means no limit.
pub open spec fn context_limits(db: DockerBuild) -> Seq<Seq<char>> {
    let only = texts(db.only@);
    let dockerfile = match db.dockerfile {
        Some(d) => d@,
        None => join_path(db.context@, "Dockerfile"@),
    };
    if only.len() == 0 {
        only
    } else {
        match relative(dockerfile, db.context@) {
            Some(rel) => only.push(rel),
            None => only,
        }
    }
}

/// The paths that a build context is limited to.
pub fn context_only(db: &DockerBuild) -> (r: Vec<String>)
    ensures
        texts(r@) == context_limits(*db),
{
    broadcast use texts_push;

    let mut only = db.only.clone();
    if only.len() == 0 {
        return only;
    }
    let dockerfile = match &db.dockerfile {
        Some(d) => d.clone(),
        None => joined_path(db.context.as_str(), "Dockerfile"),
    };
    if let Some(rel) = relative_to(dockerfile.as_str(), db.context.as_str()) {
        only.push(rel);
    }
    only
}

/// A file that is put into a build context: its path there, its mode, and its size in
/// bytes.
#[derive(Debug, PartialEq)]
pub struct ContextFile {
    pub path: &'static str,
    pub mode: u32,
    pub size: u64,
    pub contents: String,
}

/// The Dockerfile that is put into the build context, where it is given inline.
pub fn generated_dockerfile(db: &DockerBuild) -> (r: Option<ContextFile>)
    ensures
        match db.dockerfile_contents {
            None => r is None,
            Some(c) => {
                &&& r is Some
                &&& r->0.path@ == GENERATED_DOCKERFILE@
                &&& r->0.mode == 0o644
                &&& r->0.size == encode_utf8(c@).len()
                &&& r->0.contents@ == c@
            },
        },
{
    match &db.dockerfile_contents {
        None => None,
        Some(c) => Some(
            ContextFile {
                path: GENERATED_DOCKERFILE,
                mode: 0o644,
                size: c.as_str().as_bytes().len() as u64,
                contents: c.clone(),
            },
        ),
    }
}

} // verus!
