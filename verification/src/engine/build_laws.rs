//! What images are built by and called, whatever they are.

use vstd::prelude::*;
use vstd::string::*;

use crate::engine::images::{
    build_argv, content_ref, context_limits, dockerfile_name, each, expected_ref, pinned_digest,
    repo_and_tag, tag_of,
};
use crate::manifest::DockerBuild;
use crate::path_laws::{are_names, called_by_last, relative_is_rest, rooted};
use crate::text::{join, matches_at, occurs, pairs, rfind_from, starts_with, texts};
use crate::text_laws::{char_at, first_char, lacks, no_char};

verus! {

/// Whether a value stands behind a flag among arguments.
pub open spec fn passed(argv: Seq<Seq<char>>, flag: Seq<char>, value: Seq<char>) -> bool {
    exists|i: int| 0 <= i < argv.len() - 1 && #[trigger] passed_at(argv, flag, value, i)
}

/// Whether a value stands behind a flag at an index.
pub open spec fn passed_at(
    argv: Seq<Seq<char>>,
    flag: Seq<char>,
    value: Seq<char>,
    i: int,
) -> bool {
    argv[i] == flag && argv[i + 1] == value
}

proof fn each_passed(flag: Seq<char>, values: Seq<Seq<char>>, i: int)
    ensures
        each(flag, values).len() == 2 * values.len(),
        0 <= i < values.len() ==> each(flag, values)[2 * i] == flag && each(flag, values)[2 * i + 1]
            == values[i],
    decreases values.len(),
{
    if values.len() > 0 {
        each_passed(flag, values.drop_last(), i);
    }
}

proof fn passed_inside(
    a: Seq<Seq<char>>,
    b: Seq<Seq<char>>,
    c: Seq<Seq<char>>,
    flag: Seq<char>,
    value: Seq<char>,
    i: int,
)
    requires
        0 <= i < b.len() - 1,
        b[i] == flag,
        b[i + 1] == value,
    ensures
        passed(a + b + c, flag, value),
{
    assert(passed_at(a + b + c, flag, value, a.len() + i));
}

/// The values of a repeated flag are all passed with it.
proof fn each_inside(
    a: Seq<Seq<char>>,
    flag: Seq<char>,
    values: Seq<Seq<char>>,
    c: Seq<Seq<char>>,
)
    ensures
        forall|i: int|
            0 <= i < values.len() ==> passed(a + each(flag, values) + c, flag, #[trigger] values[i]),
{
    assert forall|i: int| 0 <= i < values.len() implies passed(
        a + each(flag, values) + c,
        flag,
        #[trigger] values[i],
    ) by {
        each_passed(flag, values, i);
        passed_inside(a, each(flag, values), c, flag, values[i], 2 * i);
    }
}

/// An image is built under its reference and all its other tags, from its context, with
/// every argument, cache, secret and host that it declares, each behind its flag.
#[verifier::rlimit(40)]
pub proof fn build_passes_all(db: DockerBuild, dockerfile: Option<Seq<char>>)
    ensures
        build_argv(db, dockerfile).len() > 3,
        build_argv(db, dockerfile)[0] == "build"@,
        build_argv(db, dockerfile)[1] == "-t"@,
        build_argv(db, dockerfile)[2] == db.image_ref@,
        build_argv(db, dockerfile).last() == db.context@,
        forall|i: int|
            0 <= i < db.extra_tags@.len() ==> passed(
                build_argv(db, dockerfile),
                "-t"@,
                (#[trigger] db.extra_tags@[i])@,
            ),
        forall|i: int|
            0 <= i < db.build_args@.len() ==> passed(
                build_argv(db, dockerfile),
                "--build-arg"@,
                (#[trigger] db.build_args@[i]).0@ + "="@ + db.build_args@[i].1@,
            ),
        forall|i: int|
            0 <= i < db.cache_from@.len() ==> passed(
                build_argv(db, dockerfile),
                "--cache-from"@,
                (#[trigger] db.cache_from@[i])@,
            ),
        forall|i: int|
            0 <= i < db.ssh@.len() ==> passed(
                build_argv(db, dockerfile),
                "--ssh"@,
                (#[trigger] db.ssh@[i])@,
            ),
        forall|i: int|
            0 <= i < db.secrets@.len() ==> passed(
                build_argv(db, dockerfile),
                "--secret"@,
                (#[trigger] db.secrets@[i])@,
            ),
        forall|i: int|
            0 <= i < db.extra_hosts@.len() ==> passed(
                build_argv(db, dockerfile),
                "--add-host"@,
                (#[trigger] db.extra_hosts@[i])@,
            ),
{
    let p = parts(db, dockerfile);
    parts_make_up(db, dockerfile);
    let all = build_argv(db, dockerfile);
    let args = crate::engine::images::assignments(pairs(db.build_args@));
    lists_passed(
        p.0,
        texts(db.extra_tags@),
        p.1,
        args,
        texts(db.cache_from@),
        texts(db.ssh@),
        texts(db.secrets@),
        texts(db.extra_hosts@),
        db.context@,
    );
    let tags = texts(db.extra_tags@);
    let cache = texts(db.cache_from@);
    let ssh = texts(db.ssh@);
    let secrets = texts(db.secrets@);
    let hosts = texts(db.extra_hosts@);
    assert forall|i: int| 0 <= i < db.extra_tags@.len() implies passed(
        all,
        "-t"@,
        (#[trigger] db.extra_tags@[i])@,
    ) by {
        assert(tags[i] == db.extra_tags@[i]@);
    }
    assert forall|i: int| 0 <= i < db.build_args@.len() implies passed(
        all,
        "--build-arg"@,
        (#[trigger] db.build_args@[i]).0@ + "="@ + db.build_args@[i].1@,
    ) by {
        assert(args[i] == db.build_args@[i].0@ + "="@ + db.build_args@[i].1@);
    }
    assert forall|i: int| 0 <= i < db.cache_from@.len() implies passed(
        all,
        "--cache-from"@,
        (#[trigger] db.cache_from@[i])@,
    ) by {
        assert(cache[i] == db.cache_from@[i]@);
    }
    assert forall|i: int| 0 <= i < db.ssh@.len() implies passed(
        all,
        "--ssh"@,
        (#[trigger] db.ssh@[i])@,
    ) by {
        assert(ssh[i] == db.ssh@[i]@);
    }
    assert forall|i: int| 0 <= i < db.secrets@.len() implies passed(
        all,
        "--secret"@,
        (#[trigger] db.secrets@[i])@,
    ) by {
        assert(secrets[i] == db.secrets@[i]@);
    }
    assert forall|i: int| 0 <= i < db.extra_hosts@.len() implies passed(
        all,
        "--add-host"@,
        (#[trigger] db.extra_hosts@[i])@,
    ) by {
        assert(hosts[i] == db.extra_hosts@[i]@);
    }
}

/// The values of all repeated flags are passed with them.
proof fn lists_passed(
    head: Seq<Seq<char>>,
    tags: Seq<Seq<char>>,
    mid: Seq<Seq<char>>,
    args: Seq<Seq<char>>,
    cache: Seq<Seq<char>>,
    ssh: Seq<Seq<char>>,
    secrets: Seq<Seq<char>>,
    hosts: Seq<Seq<char>>,
    context: Seq<char>,
)
    ensures
        ({
            let all = head + each("-t"@, tags) + mid + each("--build-arg"@, args) + each(
                "--cache-from"@,
                cache,
            ) + each("--ssh"@, ssh) + each("--secret"@, secrets) + each("--add-host"@, hosts)
                + seq![context];
            &&& all.len() >= head.len() + 1
            &&& forall|i: int| 0 <= i < head.len() ==> #[trigger] all[i] == head[i]
            &&& all.last() == context
            &&& forall|i: int| 0 <= i < tags.len() ==> passed(all, "-t"@, #[trigger] tags[i])
            &&& forall|i: int|
                0 <= i < args.len() ==> passed(all, "--build-arg"@, #[trigger] args[i])
            &&& forall|i: int|
                0 <= i < cache.len() ==> passed(all, "--cache-from"@, #[trigger] cache[i])
            &&& forall|i: int| 0 <= i < ssh.len() ==> passed(all, "--ssh"@, #[trigger] ssh[i])
            &&& forall|i: int|
                0 <= i < secrets.len() ==> passed(all, "--secret"@, #[trigger] secrets[i])
            &&& forall|i: int|
                0 <= i < hosts.len() ==> passed(all, "--add-host"@, #[trigger] hosts[i])
        }),
{
    let a1 = each("-t"@, tags);
    let a2 = each("--build-arg"@, args);
    let a3 = each("--cache-from"@, cache);
    let a4 = each("--ssh"@, ssh);
    let a5 = each("--secret"@, secrets);
    let a6 = each("--add-host"@, hosts);
    let end = seq![context];
    lists_apart(head, a1, mid, a2, a3, a4, a5, a6, end);
    each_inside(head, "-t"@, tags, mid + a2 + a3 + a4 + a5 + a6 + end);
    each_inside(head + a1 + mid, "--build-arg"@, args, a3 + a4 + a5 + a6 + end);
    each_inside(head + a1 + mid + a2, "--cache-from"@, cache, a4 + a5 + a6 + end);
    each_inside(head + a1 + mid + a2 + a3, "--ssh"@, ssh, a5 + a6 + end);
    each_inside(head + a1 + mid + a2 + a3 + a4, "--secret"@, secrets, a6 + end);
    each_inside(head + a1 + mid + a2 + a3 + a4 + a5, "--add-host"@, hosts, end);
}

#[verifier::rlimit(40)]
proof fn lists_apart(
    h: Seq<Seq<char>>,
    a: Seq<Seq<char>>,
    m: Seq<Seq<char>>,
    b: Seq<Seq<char>>,
    c: Seq<Seq<char>>,
    d: Seq<Seq<char>>,
    e: Seq<Seq<char>>,
    f: Seq<Seq<char>>,
    x: Seq<Seq<char>>,
)
    ensures
        h + a + m + b + c + d + e + f + x == h + a + (m + b + c + d + e + f + x),
        h + a + m + b + c + d + e + f + x == h + a + m + b + (c + d + e + f + x),
        h + a + m + b + c + d + e + f + x == h + a + m + b + c + (d + e + f + x),
        h + a + m + b + c + d + e + f + x == h + a + m + b + c + d + (e + f + x),
        h + a + m + b + c + d + e + f + x == h + a + m + b + c + d + e + (f + x),
{
    two_apart(h + a + m + b + c + d + e, f, x);
    two_apart(h + a + m + b + c + d, e, f + x);
    two_apart(h + a + m + b + c, d, e + (f + x));
    two_apart(h + a + m + b, c, d + (e + (f + x)));
    two_apart(h + a + m, b, c + (d + (e + (f + x))));
    two_apart(h + a, m, b + (c + (d + (e + (f + x)))));
    two_apart(e, f, x);
    two_apart(d, e, f + x);
    two_apart(d + e, f, x);
    two_apart(c, d, e + (f + x));
    two_apart(c + d, e, f + x);
    two_apart(c + d + e, f, x);
    two_apart(b, c, d + (e + (f + x)));
    two_apart(m, b, c + (d + (e + (f + x))));
    two_apart(m + b, c, d + (e + (f + x)));
    two_apart(m + b + c, d, e + (f + x));
    two_apart(m + b + c + d, e, f + x);
    two_apart(m + b + c + d + e, f, x);
}

proof fn two_apart(a: Seq<Seq<char>>, b: Seq<Seq<char>>, c: Seq<Seq<char>>)
    ensures
        a + b + c == a + (b + c),
{
    assert(a + b + c =~= a + (b + c));
}

/// The first arguments, and those between the tags and the build arguments.
spec fn parts(db: DockerBuild, dockerfile: Option<Seq<char>>) -> (Seq<Seq<char>>, Seq<Seq<char>>) {
    let file = match dockerfile {
        Some(d) => Some(d),
        None => crate::text::opt_text(db.dockerfile),
    };
    (
        seq!["build"@, "-t"@, db.image_ref@],
        crate::engine::images::maybe("-f"@, file) + crate::engine::images::maybe(
            "--target"@,
            crate::text::opt_text(db.target),
        ) + crate::engine::images::maybe("--platform"@, crate::text::opt_text(db.platform))
            + crate::engine::images::maybe("--network"@, crate::text::opt_text(db.network)) + (
        if db.pull {
            seq!["--pull"@]
        } else {
            Seq::empty()
        }),
    )
}

proof fn parts_make_up(db: DockerBuild, dockerfile: Option<Seq<char>>)
    ensures
        build_argv(db, dockerfile) == parts(db, dockerfile).0 + each("-t"@, texts(db.extra_tags@))
            + parts(db, dockerfile).1 + each(
            "--build-arg"@,
            crate::engine::images::assignments(pairs(db.build_args@)),
        ) + each("--cache-from"@, texts(db.cache_from@)) + each("--ssh"@, texts(db.ssh@)) + each(
            "--secret"@,
            texts(db.secrets@),
        ) + each("--add-host"@, texts(db.extra_hosts@)) + seq![db.context@],
{
    assert(build_argv(db, dockerfile) =~= parts(db, dockerfile).0 + each(
        "-t"@,
        texts(db.extra_tags@),
    ) + parts(db, dockerfile).1 + each(
        "--build-arg"@,
        crate::engine::images::assignments(pairs(db.build_args@)),
    ) + each("--cache-from"@, texts(db.cache_from@)) + each("--ssh"@, texts(db.ssh@)) + each(
        "--secret"@,
        texts(db.secrets@),
    ) + each("--add-host"@, texts(db.extra_hosts@)) + seq![db.context@]);
}

/// Pieces of a list of arguments, one taken out after the other.
proof fn regrouped(
    head: Seq<Seq<char>>,
    f: Seq<Seq<char>>,
    t: Seq<Seq<char>>,
    p: Seq<Seq<char>>,
    n: Seq<Seq<char>>,
    u: Seq<Seq<char>>,
    rest: Seq<Seq<char>>,
)
    ensures
        head + (f + t + p + n + u) + rest == head + f + (t + p + n + u + rest),
        head + (f + t + p + n + u) + rest == (head + f) + t + (p + n + u + rest),
        head + (f + t + p + n + u) + rest == (head + f + t) + p + (n + u + rest),
        head + (f + t + p + n + u) + rest == (head + f + t + p) + n + (u + rest),
        head + (f + t + p + n + u) + rest == (head + f + t + p + n) + u + rest,
{
    let all = head + (f + t + p + n + u) + rest;
    assert(all =~= head + f + (t + p + n + u + rest));
    assert(all =~= (head + f) + t + (p + n + u + rest));
    assert(all =~= (head + f + t) + p + (n + u + rest));
    assert(all =~= (head + f + t + p) + n + (u + rest));
    assert(all =~= (head + f + t + p + n) + u + rest);
}

/// The arguments behind the settings.
spec fn lists(db: DockerBuild) -> Seq<Seq<char>> {
    each("--build-arg"@, crate::engine::images::assignments(pairs(db.build_args@))) + each(
        "--cache-from"@,
        texts(db.cache_from@),
    ) + each("--ssh"@, texts(db.ssh@)) + each("--secret"@, texts(db.secrets@)) + each(
        "--add-host"@,
        texts(db.extra_hosts@),
    ) + seq![db.context@]
}

proof fn settings_inside(db: DockerBuild, dockerfile: Option<Seq<char>>)
    ensures
        build_argv(db, dockerfile) == (parts(db, dockerfile).0 + each("-t"@, texts(db.extra_tags@)))
            + parts(db, dockerfile).1 + lists(db),
        lists(db).len() == 1 + 2 * (db.build_args@.len() + db.cache_from@.len() + db.ssh@.len()
            + db.secrets@.len() + db.extra_hosts@.len()),
        (parts(db, dockerfile).0 + each("-t"@, texts(db.extra_tags@))).len() == 3 + 2
            * db.extra_tags@.len(),
{
    parts_make_up(db, dockerfile);
    each_passed("-t"@, texts(db.extra_tags@), 0);
    each_passed("--build-arg"@, crate::engine::images::assignments(pairs(db.build_args@)), 0);
    each_passed("--cache-from"@, texts(db.cache_from@), 0);
    each_passed("--ssh"@, texts(db.ssh@), 0);
    each_passed("--secret"@, texts(db.secrets@), 0);
    each_passed("--add-host"@, texts(db.extra_hosts@), 0);
    grouped(
        parts(db, dockerfile).0 + each("-t"@, texts(db.extra_tags@)) + parts(db, dockerfile).1,
        each("--build-arg"@, crate::engine::images::assignments(pairs(db.build_args@))),
        each("--cache-from"@, texts(db.cache_from@)),
        each("--ssh"@, texts(db.ssh@)),
        each("--secret"@, texts(db.secrets@)),
        each("--add-host"@, texts(db.extra_hosts@)),
        seq![db.context@],
    );
}

proof fn grouped(
    h: Seq<Seq<char>>,
    b: Seq<Seq<char>>,
    c: Seq<Seq<char>>,
    d: Seq<Seq<char>>,
    e: Seq<Seq<char>>,
    g: Seq<Seq<char>>,
    x: Seq<Seq<char>>,
)
    ensures
        h + b + c + d + e + g + x == h + (b + c + d + e + g + x),
{
    assert(h + b + c + d + e + g + x =~= h + (b + c + d + e + g + x));
}

/// The settings of a build that there is one of are passed where they are made; a given
/// Dockerfile takes the place of the declared one. Nothing else is passed: the number of
/// arguments is that of what was declared.
#[verifier::rlimit(40)]
pub proof fn build_passes_settings(db: DockerBuild, dockerfile: Option<Seq<char>>)
    ensures
        dockerfile matches Some(d) ==> passed(build_argv(db, dockerfile), "-f"@, d),
        dockerfile is None && db.dockerfile is Some ==> passed(
            build_argv(db, dockerfile),
            "-f"@,
            db.dockerfile->0@,
        ),
        db.target matches Some(t) ==> passed(build_argv(db, dockerfile), "--target"@, t@),
        db.platform matches Some(t) ==> passed(build_argv(db, dockerfile), "--platform"@, t@),
        db.network matches Some(t) ==> passed(build_argv(db, dockerfile), "--network"@, t@),
        db.pull ==> build_argv(db, dockerfile).contains("--pull"@),
        build_argv(db, dockerfile).len() == 4 + 2 * (db.extra_tags@.len() + db.build_args@.len()
            + db.cache_from@.len() + db.ssh@.len() + db.secrets@.len() + db.extra_hosts@.len())
            + (if dockerfile is Some || db.dockerfile is Some {
            2int
        } else {
            0int
        }) + (if db.target is Some {
            2int
        } else {
            0int
        }) + (if db.platform is Some {
            2int
        } else {
            0int
        }) + (if db.network is Some {
            2int
        } else {
            0int
        }) + (if db.pull {
            1int
        } else {
            0int
        }),
{
    settings_inside(db, dockerfile);
    let file = match dockerfile {
        Some(d) => Some(d),
        None => crate::text::opt_text(db.dockerfile),
    };
    let head = parts(db, dockerfile).0 + each("-t"@, texts(db.extra_tags@));
    let rest = lists(db);
    let f = crate::engine::images::maybe("-f"@, file);
    let t = crate::engine::images::maybe("--target"@, crate::text::opt_text(db.target));
    let p = crate::engine::images::maybe("--platform"@, crate::text::opt_text(db.platform));
    let n = crate::engine::images::maybe("--network"@, crate::text::opt_text(db.network));
    let u = if db.pull {
        seq!["--pull"@]
    } else {
        Seq::empty()
    };
    settings_passed(head, file, db, u, rest);
    assert(parts(db, dockerfile).1 == f + t + p + n + u);
}

proof fn settings_passed(
    head: Seq<Seq<char>>,
    file: Option<Seq<char>>,
    db: DockerBuild,
    u: Seq<Seq<char>>,
    rest: Seq<Seq<char>>,
)
    ensures
        ({
            let f = crate::engine::images::maybe("-f"@, file);
            let t = crate::engine::images::maybe("--target"@, crate::text::opt_text(db.target));
            let p = crate::engine::images::maybe("--platform"@, crate::text::opt_text(db.platform));
            let n = crate::engine::images::maybe("--network"@, crate::text::opt_text(db.network));
            let all = head + (f + t + p + n + u) + rest;
            &&& file matches Some(d) ==> passed(all, "-f"@, d)
            &&& db.target matches Some(d) ==> passed(all, "--target"@, d@)
            &&& db.platform matches Some(d) ==> passed(all, "--platform"@, d@)
            &&& db.network matches Some(d) ==> passed(all, "--network"@, d@)
            &&& u.len() > 0 ==> all.contains(u[0])
        }),
{
    let f = crate::engine::images::maybe("-f"@, file);
    let t = crate::engine::images::maybe("--target"@, crate::text::opt_text(db.target));
    let p = crate::engine::images::maybe("--platform"@, crate::text::opt_text(db.platform));
    let n = crate::engine::images::maybe("--network"@, crate::text::opt_text(db.network));
    regrouped(head, f, t, p, n, u, rest);
    if let Some(d) = file {
        passed_inside(head, f, t + p + n + u + rest, "-f"@, d, 0);
    }
    if let Some(d) = db.target {
        passed_inside(head + f, t, p + n + u + rest, "--target"@, d@, 0);
    }
    if let Some(d) = db.platform {
        passed_inside(head + f + t, p, n + u + rest, "--platform"@, d@, 0);
    }
    if let Some(d) = db.network {
        passed_inside(head + f + t + p, n, u + rest, "--network"@, d@, 0);
    }
    if u.len() > 0 {
        let all = (head + f + t + p + n) + u + rest;
        assert(all[(head + f + t + p + n).len() as int] == u[0]);
    }
}

/// The last place of a character in a text.
proof fn last_place(a: Seq<char>, c: char, b: Seq<char>, upto: int)
    requires
        lacks(b, c),
        a.len() <= upto,
    ensures
        rfind_from(a + seq![c] + b, seq![c], upto) == Some(a.len() as int),
    decreases upto,
{
    let s = a + seq![c] + b;
    char_at(s, c, upto);
    if upto > a.len() {
        if upto < s.len() {
            assert(s[upto] == b[upto - a.len() - 1]);
        }
        last_place(a, c, b, upto - 1);
    } else {
        assert(s[upto] == c);
    }
}

/// The place that is found has the character.
proof fn place_has(s: Seq<char>, c: char, upto: int)
    ensures
        match rfind_from(s, seq![c], upto) {
            Some(i) => 0 <= i <= upto && i < s.len() && s[i] == c && forall|j: int|
                i < j <= upto && j < s.len() ==> #[trigger] s[j] != c,
            None => forall|j: int| 0 <= j <= upto && j < s.len() ==> #[trigger] s[j] != c,
        },
    decreases upto + 1,
{
    if upto >= 0 {
        char_at(s, c, upto);
        place_has(s, c, upto - 1);
    }
}

/// A reference is its repository, a colon and its tag, and `latest` where it has none; a
/// colon before the last slash is that of a registry's port and starts no tag.
pub proof fn tag_cut(repo: Seq<char>, tag: Seq<char>, registry: Seq<char>, name: Seq<char>)
    requires
        lacks(tag, ':'),
        lacks(tag, '/'),
        lacks(name, ':'),
    ensures
        repo_and_tag(repo + ":"@ + tag) == (repo, tag),
        repo_and_tag(name) == (name, "latest"@),
        repo_and_tag(registry + "/"@ + name) == (registry + "/"@ + name, "latest"@),
{
    reveal_strlit(":");
    reveal_strlit("/");
    assert(":"@ =~= seq![':']);
    assert("/"@ =~= seq!['/']);
    let s = repo + ":"@ + tag;
    last_place(repo, ':', tag, s.len() as int);
    place_has(s, '/', s.len() as int);
    if let Some(i) = rfind_from(s, "/"@, s.len() as int) {
        if i > repo.len() {
            assert(s[i] == tag[i - repo.len() - 1]);
        }
    }
    assert(s.take(repo.len() as int) =~= repo);
    assert(s.skip((repo.len() + 1) as int) =~= tag);
    place_has(name, ':', name.len() as int);
    if let Some(i) = rfind_from(name, ":"@, name.len() as int) {
        assert(name[i] == ':');
    }
    let r = registry + "/"@ + name;
    place_has(r, ':', r.len() as int);
    place_has(r, '/', r.len() as int);
    assert(r[registry.len() as int] == '/');
    if let Some(i) = rfind_from(r, ":"@, r.len() as int) {
        if i > registry.len() {
            assert(r[i] == name[i - registry.len() - 1]);
        }
    }
}

/// What is deployed is called by the repository and the digest alone: the tag that an
/// image was built under does not show in it, nor does the name of the digest's algorithm.
pub proof fn content_names_digest(
    repo: Seq<char>,
    tag: Seq<char>,
    other: Seq<char>,
    digest: Seq<char>,
)
    requires
        lacks(tag, ':'),
        lacks(tag, '/'),
        lacks(other, ':'),
        lacks(other, '/'),
        !starts_with(digest, "sha256:"@),
    ensures
        content_ref(repo + ":"@ + tag, digest) == content_ref(repo + ":"@ + other, digest),
        content_ref(repo + ":"@ + tag, digest) == repo + ":"@ + tag_of(digest),
        tag_of("sha256:"@ + digest) == tag_of(digest),
{
    tag_cut(repo, tag, repo, Seq::empty());
    tag_cut(repo, other, repo, Seq::empty());
    reveal_strlit("sha256:");
    let s = "sha256:"@ + digest;
    assert(s.subrange(0, 7) =~= "sha256:"@);
    assert(s.skip(7) =~= digest);
}

/// A reference that is pinned to a digest has it behind the at sign; others have none.
pub proof fn digest_pinned(repo: Seq<char>, hex: Seq<char>, other: Seq<char>)
    requires
        lacks(repo, '@'),
        !starts_with(other, "sha256:"@),
    ensures
        pinned_digest(repo + "@"@ + "sha256:"@ + hex) == Some("sha256:"@ + hex),
        pinned_digest(repo) is None,
        pinned_digest(repo + "@"@ + other) is None,
{
    reveal_strlit("@");
    reveal_strlit("sha256:");
    assert("@"@ =~= seq!['@']);
    let d = "sha256:"@ + hex;
    let s = repo + "@"@ + d;
    assert(s =~= repo + "@"@ + "sha256:"@ + hex);
    first_char(repo, '@', d, 0);
    assert(s.skip((repo.len() + 1) as int) =~= d);
    assert(d.subrange(0, 7) =~= "sha256:"@);
    no_char(repo, '@', 0);
    first_char(repo, '@', other, 0);
    assert((repo + "@"@ + other).skip((repo.len() + 1) as int) =~= other);
}

/// A custom build is expected to make the reference of its tag: a tag with a slash is a
/// reference itself, any other is one of the image's repository; without a tag the
/// reference is that of the image.
pub proof fn custom_expected(db: DockerBuild, repo: Seq<char>, tag: Seq<char>)
    requires
        lacks(tag, ':'),
        lacks(tag, '/'),
        db.image_ref@ == repo + ":"@ + tag,
    ensures
        db.custom_tag is None ==> expected_ref(db) == db.image_ref@,
        db.custom_tag matches Some(t) ==> {
            &&& lacks(t@, '/') ==> expected_ref(db) == repo + ":"@ + t@
            &&& !lacks(t@, '/') ==> expected_ref(db) == t@
        },
{
    tag_cut(repo, tag, repo, Seq::empty());
    reveal_strlit("/");
    assert("/"@ =~= seq!['/']);
    if let Some(t) = db.custom_tag {
        if occurs(t@, "/"@) {
            let i = choose|i: int| matches_at(t@, "/"@, i);
            char_at(t@, '/', i);
            assert(t@[i] == '/');
        }
        if !lacks(t@, '/') {
            let i = choose|i: int| 0 <= i < t@.len() && #[trigger] t@[i] == '/';
            char_at(t@, '/', i);
            assert(matches_at(t@, "/"@, i));
        }
    }
}

/// A build context is limited to the paths asked for and the Dockerfile, where any are
/// asked for; else it is not limited.
pub proof fn context_limited(db: DockerBuild, dir: Seq<Seq<char>>, rest: Seq<Seq<char>>)
    requires
        are_names(dir),
        are_names(rest),
        db.context@ == rooted(dir),
        db.dockerfile is Some,
        db.dockerfile->0@ == rooted(dir + rest),
    ensures
        db.only@.len() == 0 ==> context_limits(db).len() == 0,
        db.only@.len() > 0 ==> context_limits(db) == texts(db.only@).push(join(rest, "/"@)),
{
    relative_is_rest(dir, rest);
}

/// The Dockerfile that a build names is the generated one where its contents are given,
/// else the file that is declared, else `Dockerfile`.
pub proof fn dockerfile_named(db: DockerBuild, v: Seq<Seq<char>>)
    requires
        are_names(v),
        v.len() > 0,
        v.last() != ".."@,
    ensures
        db.dockerfile_contents is Some ==> dockerfile_name(db) == ".starling/Dockerfile.generated"@,
        db.dockerfile_contents is None && db.dockerfile is None ==> dockerfile_name(db)
            == "Dockerfile"@,
        db.dockerfile_contents is None && db.dockerfile is Some && db.dockerfile->0@ == rooted(v)
            ==> dockerfile_name(db) == v.last(),
{
    called_by_last(v);
}

} // verus!
