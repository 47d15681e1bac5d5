//! What is read from pages and responses, whatever they hold.

use vstd::prelude::*;
use vstd::string::*;

use crate::health::{
    attr_of, enqueued, header, headers_of, is_local, is_module, is_script, local_imports,
    module_error, response_of, scripts_from, shows_html, status_of, ResponseV,
};
use crate::probe::probe_status;
use crate::text::{
    dec, dec_is_digits, find_from, find_skip, is_space, lowercase, matches_at, occurs, parsed_dec,
    starts_with, words,
};
use crate::text_laws::{
    blank, char_at, first_char, lacks, no_char, one_word, snug, trims_around, words_apart,
};

verus! {

/// The first place of a text that holds a character which what stands before it lacks.
proof fn marked_found(
    a: Seq<char>,
    name: Seq<char>,
    mark: char,
    quote: char,
    b: Seq<char>,
    from: int,
)
    requires
        lacks(a, mark),
        lacks(name, mark),
        0 <= from <= a.len(),
    ensures
        find_from(a + (name + seq![mark, quote]) + b, name + seq![mark, quote], from) == Some(
            a.len() as int,
        ),
    decreases a.len() - from,
{
    let n = name + seq![mark, quote];
    let s = a + n + b;
    if from < a.len() {
        marked_found(a, name, mark, quote, b, from + 1);
        if matches_at(s, n, from) {
            let w = s.subrange(from, from + n.len());
            assert(w[name.len() as int] == mark);
            let k = from + name.len();
            assert(s[k] == mark);
            if k < a.len() {
                assert(s[k] == a[k]);
            } else {
                assert(s[k] == name[k - a.len()]);
            }
        }
    } else {
        assert(s.subrange(from, from + n.len()) =~= n);
    }
}

proof fn marked_missing(s: Seq<char>, name: Seq<char>, mark: char, quote: char, from: int)
    requires
        0 <= from,
        forall|i: int| 0 <= i < s.len() - 1 ==> (#[trigger] s[i]) != mark || s[i + 1] != quote,
    ensures
        find_from(s, name + seq![mark, quote], from) is None,
    decreases s.len() - from + 1,
{
    let n = name + seq![mark, quote];
    if from + n.len() <= s.len() {
        if matches_at(s, n, from) {
            let w = s.subrange(from, from + n.len());
            assert(w[name.len() as int] == mark && w[(name.len() + 1) as int] == quote);
            assert(s[from + name.len()] == mark);
            assert(s[from + name.len() + 1] == quote);
        }
        marked_missing(s, name, mark, quote, from + 1);
    }
}

/// The value of an attribute of a tag is what stands between the quotes behind its name
/// and an equals sign.
pub proof fn attribute_read(
    before: Seq<char>,
    name: Seq<char>,
    value: Seq<char>,
    behind: Seq<char>,
)
    requires
        lacks(before, '='),
        lacks(name, '='),
        lacks(value, '"'),
    ensures
        attr_of(before + name + "=\""@ + value + "\""@ + behind, name) == Some(value),
{
    reveal_strlit("=\"");
    reveal_strlit("\"");
    reveal_strlit("=");
    let needle = name + "="@ + "\""@;
    assert(needle =~= name + seq!['=', '"']);
    let tag = before + name + "=\""@ + value + "\""@ + behind;
    assert(tag =~= before + (name + seq!['=', '"']) + (value + "\""@ + behind));
    marked_found(before, name, '=', '"', value + "\""@ + behind, 0);
    let start = (before.len() + needle.len()) as int;
    let rest = tag.skip(start);
    assert("\""@ =~= seq!['"']);
    assert(rest =~= value + seq!['"'] + behind);
    first_char(value, '"', behind, 0);
    find_skip(tag, "\""@, start, 0);
    assert(tag.subrange(start, start + value.len()) =~= value);
}

/// The same between single quotes, where the tag has no value in double ones.
pub proof fn single_quoted_read(
    before: Seq<char>,
    name: Seq<char>,
    value: Seq<char>,
    behind: Seq<char>,
)
    requires
        lacks(before, '='),
        lacks(name, '='),
        lacks(value, '\''),
        ({
            let tag = before + name + "='"@ + value + "'"@ + behind;
            forall|i: int| 0 <= i < tag.len() - 1 ==> (#[trigger] tag[i]) != '=' || tag[i + 1] != '"'
        }),
    ensures
        attr_of(before + name + "='"@ + value + "'"@ + behind, name) == Some(value),
{
    reveal_strlit("='");
    reveal_strlit("'");
    reveal_strlit("=");
    reveal_strlit("\"");
    let needle = name + "="@ + "'"@;
    assert(needle =~= name + seq!['=', '\'']);
    let tag = before + name + "='"@ + value + "'"@ + behind;
    assert(name + "="@ + "\""@ =~= name + seq!['=', '"']);
    marked_missing(tag, name, '=', '"', 0);
    assert(tag =~= before + (name + seq!['=', '\'']) + (value + "'"@ + behind));
    marked_found(before, name, '=', '\'', value + "'"@ + behind, 0);
    let start = (before.len() + needle.len()) as int;
    let rest = tag.skip(start);
    assert("'"@ =~= seq!['\'']);
    assert(rest =~= value + seq!['\''] + behind);
    first_char(value, '\'', behind, 0);
    find_skip(tag, "'"@, start, 0);
    assert(tag.subrange(start, start + value.len()) =~= value);
}

/// A path is one of the page's own server where it starts with one slash and no more.
pub proof fn local_told(path: Seq<char>)
    ensures
        is_local("/"@ + path) <==> path.len() == 0 || path[0] != '/',
        path.len() == 0 || path[0] != '/' ==> !is_local(path),
{
    reveal_strlit("/");
    reveal_strlit("//");
    assert("/"@ =~= seq!['/']);
    let p = "/"@ + path;
    char_at(p, '/', 0);
    char_at(path, '/', 0);
    if starts_with(p, "//"@) {
        assert(p.subrange(0, 2)[1] == '/');
        assert(p[1] == path[0]);
    }
    if path.len() > 0 && path[0] == '/' {
        assert(p.subrange(0, 2) =~= "//"@);
    }
}

/// Looking for scripts from an index on is looking in what is left from it on.
proof fn scripts_skip(html: Seq<char>, at: int, from: int)
    requires
        0 <= at,
        0 <= from,
        at + from <= html.len(),
    ensures
        scripts_from(html.skip(at), from) == scripts_from(html, at + from),
    decreases html.len() - at - from,
{
    let t = html.skip(at);
    reveal_strlit("<script");
    reveal_strlit(">");
    find_skip(html, "<script"@, at, from);
    crate::text::find_is_first(html, "<script"@, at + from);
    if let Some(i) = find_from(html, "<script"@, at + from) {
        let start = i + 7;
        find_skip(html, ">"@, at, start - at);
        crate::text::find_is_first(html, ">"@, start);
        if let Some(end) = find_from(html, ">"@, start) {
            assert(t.subrange(start - at, end - at) =~= html.subrange(start, end));
            scripts_skip(html, at, end - at + 1);
        }
    }
}

/// The first script of a page.
proof fn script_found(a: Seq<char>, b: Seq<char>, from: int)
    requires
        lacks(a, '<'),
        0 <= from <= a.len(),
    ensures
        find_from(a + "<script"@ + b, "<script"@, from) == Some(a.len() as int),
    decreases a.len() - from,
{
    reveal_strlit("<script");
    let s = a + "<script"@ + b;
    if from < a.len() {
        script_found(a, b, from + 1);
        if matches_at(s, "<script"@, from) {
            assert(s.subrange(from, from + 7)[0] == '<');
            assert(s[from] == a[from]);
        }
    } else {
        assert(s.subrange(from, from + 7) =~= "<script"@);
    }
}

/// The modules of a page are those of its script tags, in order, that have the type of a
/// module and a source on the page's own server; the rest of the page is read on.
pub proof fn scripts_read(before: Seq<char>, tag: Seq<char>, rest: Seq<char>, source: Seq<char>)
    requires
        lacks(before, '<'),
        lacks(tag, '>'),
    ensures
        is_module(tag) && attr_of(tag, "src"@) == Some(source) && is_local(source) ==> scripts_from(
            before + "<script"@ + tag + ">"@ + rest,
            0,
        ) == seq![source] + scripts_from(rest, 0),
        !is_module(tag) || attr_of(tag, "src"@) is None || !is_local(attr_of(tag, "src"@)->0)
            ==> scripts_from(before + "<script"@ + tag + ">"@ + rest, 0) == scripts_from(rest, 0),
        scripts_from(before, 0) == Seq::<Seq<char>>::empty(),
{
    reveal_strlit("<script");
    reveal_strlit(">");
    assert(">"@ =~= seq!['>']);
    let html = before + "<script"@ + tag + ">"@ + rest;
    let tail = tag + ">"@ + rest;
    assert(html =~= before + "<script"@ + tail);
    script_found(before, tail, 0);
    let start = (before.len() + 7) as int;
    assert(html.skip(start) =~= tag + seq!['>'] + rest);
    first_char(tag, '>', rest, 0);
    find_skip(html, ">"@, start, 0);
    let end = start + tag.len();
    assert(html.subrange(start, end) =~= tag);
    scripts_skip(html, end + 1, 0);
    assert(html.skip(end + 1) =~= rest);
    no_script(before, 0);
}

proof fn no_script(a: Seq<char>, from: int)
    requires
        lacks(a, '<'),
        0 <= from,
    ensures
        find_from(a, "<script"@, from) is None,
    decreases a.len() - from + 1,
{
    reveal_strlit("<script");
    if from + 7 <= a.len() {
        if matches_at(a, "<script"@, from) {
            assert(a.subrange(from, from + 7)[0] == '<');
            assert(a[from] == '<');
        }
        no_script(a, from + 1);
    }
}

/// A module's imports are those on the page's own server, in order, whichever way they are
/// written.
pub proof fn imports_read(
    a: Seq<(Option<Seq<char>>, Option<Seq<char>>)>,
    b: Seq<(Option<Seq<char>>, Option<Seq<char>>)>,
    path: Seq<char>,
    other: Option<Seq<char>>,
)
    ensures
        local_imports(a + b) == local_imports(a) + local_imports(b),
        is_local(path) ==> local_imports(seq![(Some(path), other)]) == seq![path],
        is_local(path) ==> local_imports(seq![(None, Some(path))]) == seq![path],
        !is_local(path) ==> local_imports(seq![(Some(path), other)]).len() == 0,
        !is_local(path) ==> local_imports(seq![(None, Some(path))]).len() == 0,
    decreases b.len(),
{
    reveal_with_fuel(local_imports, 2);
    let e = Seq::<(Option<Seq<char>>, Option<Seq<char>>)>::empty();
    let x = (Some(path), other);
    let y = (None::<Seq<char>>, Some(path));
    assert(seq![x].drop_last() =~= e);
    assert(seq![y].drop_last() =~= e);
    assert(Seq::<Seq<char>>::empty().push(path) =~= seq![path]);
    if b.len() > 0 {
        assert((a + b).drop_last() =~= a + b.drop_last());
        assert((a + b).last() == b.last());
        imports_read(a, b.drop_last(), path, other);
        assert(local_imports(a + b) =~= local_imports(a) + local_imports(b));
    } else {
        assert(a + b =~= a);
        assert(local_imports(a) + local_imports(b) =~= local_imports(a));
    }
}

/// What is queued stays queued in its order; a path that was not loaded yet is queued, and
/// none twice.
pub proof fn paths_queued(
    queue: Seq<Seq<char>>,
    seen: Seq<Seq<char>>,
    paths: Seq<Seq<char>>,
    path: Seq<char>,
)
    ensures
        queue.len() <= enqueued(queue, seen, paths).len(),
        enqueued(queue, seen, paths).take(queue.len() as int) == queue,
        enqueued(queue, seen, paths).contains(path) <==> queue.contains(path) || (paths.contains(
            path,
        ) && !seen.contains(path)),
        queue.no_duplicates() ==> enqueued(queue, seen, paths).no_duplicates(),
    decreases paths.len(),
{
    let all = enqueued(queue, seen, paths);
    if paths.len() > 0 {
        let d = paths.drop_last();
        let last = paths.last();
        let q = enqueued(queue, seen, d);
        paths_queued(queue, seen, d, path);
        paths_queued(queue, seen, d, last);
        assert(last == paths[paths.len() - 1]);
        assert(all.take(queue.len() as int) =~= queue);
        if paths.contains(path) && path != last {
            let i = choose|i: int| 0 <= i < paths.len() && paths[i] == path;
            assert(d[i] == path);
        }
        if d.contains(path) {
            let i = choose|i: int| 0 <= i < d.len() && d[i] == path;
            assert(paths[i] == path);
        }
        if q.contains(path) {
            let i = choose|i: int| 0 <= i < q.len() && q[i] == path;
            assert(all[i] == path);
        }
        if all.contains(path) && !q.contains(path) {
            let i = choose|i: int| 0 <= i < all.len() && all[i] == path;
            if i < q.len() {
                assert(q[i] == path);
            }
            assert(path == last);
        }
        if !(seen.contains(last) || q.contains(last)) {
            assert(all[q.len() as int] == last);
            if queue.no_duplicates() {
                assert forall|i: int, j: int|
                    0 <= i < all.len() && 0 <= j < all.len() && i != j implies all[i]
                    != all[j] by {
                    if i < q.len() {
                        assert(q[i] == all[i]);
                    }
                    if j < q.len() {
                        assert(q[j] == all[j]);
                    }
                }
            }
        }
    } else {
        assert(all.take(queue.len() as int) =~= queue);
    }
}

/// A module is in order just where it came with a status of success and the type of a
/// script.
pub proof fn module_judged(path: Seq<char>, r: Result<ResponseV, Seq<char>>, kind: Seq<char>)
    ensures
        module_error(path, r) is None <==> r is Ok && 200 <= r->Ok_0.status < 300 && is_script(
            r->Ok_0,
        ),
        r is Ok && header(r->Ok_0.headers, "content-type"@) is None ==> !is_script(r->Ok_0)
            && !shows_html(r->Ok_0),
        r is Ok && header(r->Ok_0.headers, "content-type"@) == Some(kind) ==> {
            &&& is_script(r->Ok_0) <==> occurs(lowercase(kind), "javascript"@) || occurs(
                lowercase(kind),
                "ecmascript"@,
            )
            &&& shows_html(r->Ok_0) <==> occurs(lowercase(kind), "text/html"@)
        },
{
}

/// The status of a response is the number behind its version, for what is read of pages
/// and for probes alike; a line with another start has none for pages.
pub proof fn status_read(version: Seq<char>, n: u16, gap: Seq<char>, rest: Seq<char>)
    requires
        forall|i: int| 0 <= i < version.len() ==> !is_space(#[trigger] version[i]),
        version.len() > 0,
        gap.len() > 0,
        blank(gap),
    ensures
        starts_with(version, "HTTP/"@) ==> status_of(
            version + gap + dec(n as nat) + gap + rest,
        ) == Some(n) && status_of(version + gap + dec(n as nat)) == Some(n),
        !starts_with(version, "HTTP/"@) ==> status_of(
            version + gap + dec(n as nat) + gap + rest,
        ) is None,
        probe_status(version + gap + dec(n as nat) + gap + rest) == Some(n as nat),
        probe_status(version + gap + dec(n as nat)) == Some(n as nat),
        probe_status(version) is None && status_of(version) is None,
{
    let d = dec(n as nat);
    dec_is_digits(n as nat);
    parsed_dec(n as nat, 65535);
    assert forall|i: int| 0 <= i < d.len() implies !is_space(#[trigger] d[i]) by {
        assert(crate::text::is_digit(d[i]));
    }
    one_word(version, gap);
    one_word(d, gap);
    words_apart(version, gap, d);
    words_apart(version + gap + d, gap, rest);
    let short = words(version + gap + d);
    assert(short =~= seq![version, d]);
    let long = words(version + gap + d + gap + rest);
    assert(long[0] == version && long[1] == d);
}

/// A header line gives its name in lower case and its value, without the white space
/// around them; lines without a colon give nothing. Of headers that come twice the last
/// counts.
pub proof fn headers_read(
    a: Seq<Seq<char>>,
    b: Seq<Seq<char>>,
    name: Seq<char>,
    left: Seq<char>,
    value: Seq<char>,
    right: Seq<char>,
    other: Seq<char>,
)
    requires
        snug(name),
        lacks(name, ':'),
        snug(value),
        blank(left),
        blank(right),
        lacks(other, ':'),
    ensures
        headers_of(a + b) == headers_of(a) + headers_of(b),
        headers_of(seq![name + ":"@ + left + value + right]) == seq![(lowercase(name), value)],
        headers_of(seq![other]).len() == 0,
        header(headers_of(a).push((lowercase(name), value)), lowercase(name)) == Some(value),
    decreases b.len(),
{
    reveal_with_fuel(headers_of, 2);
    reveal_strlit(":");
    assert(":"@ =~= seq![':']);
    let l = name + ":"@ + left + value + right;
    let v = left + value + right;
    assert(l =~= name + seq![':'] + v);
    first_char(name, ':', v, 0);
    assert(l.take(name.len() as int) =~= name);
    assert(l.skip((name.len() + 1) as int) =~= v);
    trims_around(left, value, right);
    let e = Seq::<char>::empty();
    assert(e + name + e =~= name);
    trims_around(e, name, e);
    assert(seq![l].drop_last() =~= Seq::empty());
    assert(seq![other].drop_last() =~= Seq::empty());
    no_char(other, ':', 0);
    assert(headers_of(seq![l]) =~= seq![(lowercase(name), value)]);
    let h = headers_of(a).push((lowercase(name), value));
    assert(h.last() == (lowercase(name), value));
    if b.len() > 0 {
        assert((a + b).drop_last() =~= a + b.drop_last());
        assert((a + b).last() == b.last());
        headers_read(a, b.drop_last(), name, left, value, right, other);
        assert(headers_of(a + b) =~= headers_of(a) + headers_of(b));
    } else {
        assert(a + b =~= a);
        assert(headers_of(a) + headers_of(b) =~= headers_of(a));
    }
}

/// A script tag is that of a module just where its type says so, in whatever case.
pub proof fn module_told(tag: Seq<char>, kind: Seq<char>)
    ensures
        attr_of(tag, "type"@) == Some(kind) ==> (is_module(tag) <==> lowercase(kind) == "module"@),
        attr_of(tag, "type"@) is None ==> !is_module(tag),
{
}

/// A response without a blank line is none; one with it has its body behind it, its status
/// from its first line and its headers from the others.
pub proof fn response_read(
    raw: Seq<u8>,
    i: int,
    l: Seq<Seq<char>>,
    status: u16,
)
    requires
        crate::text::lines(crate::text::lossy(raw.take(i))) == l,
    ensures
        (forall|k: int| 0 <= k ==> !#[trigger] ends_head(raw, k)) ==> response_of(raw) is Err,
        0 <= i && ends_head(raw, i) && (forall|k: int| 0 <= k < i ==> !#[trigger] ends_head(raw, k))
            ==> {
            &&& l.len() > 0 && status_of(l[0]) == Some(status) ==> response_of(raw) is Ok
                && response_of(raw)->Ok_0.status == status && response_of(raw)->Ok_0.headers
                == headers_of(l.drop_first()) && response_of(raw)->Ok_0.body == raw.skip(i + 4)
            &&& l.len() == 0 || status_of(l[0]) is None ==> response_of(raw) is Err
        },
{
    let b = crate::http::blank_line();
    head_end(raw, 0);
    if 0 <= i && ends_head(raw, i) && forall|k: int| 0 <= k < i ==> !#[trigger] ends_head(raw, k) {
        if let Some(j) = crate::http::bytes_from(raw, b, 0) {
            if j < i {
                assert(ends_head(raw, j));
            }
        }
    }
}

/// Whether a head ends at an index of bytes: two ends of lines stand there.
pub open spec fn ends_head(raw: Seq<u8>, i: int) -> bool {
    0 <= i && i + 4 <= raw.len() && raw[i] == 13 && raw[i + 1] == 10 && raw[i + 2] == 13 && raw[i + 3]
        == 10
}

proof fn head_end(raw: Seq<u8>, from: int)
    requires
        0 <= from,
    ensures
        match crate::http::bytes_from(raw, crate::http::blank_line(), from) {
            Some(i) => from <= i && ends_head(raw, i) && forall|k: int|
                from <= k < i ==> !#[trigger] ends_head(raw, k),
            None => forall|k: int| from <= k ==> !#[trigger] ends_head(raw, k),
        },
    decreases raw.len() - from,
{
    if from < raw.len() {
        let b = crate::http::blank_line();
        let w = raw.subrange(from, from + 4);
        if from + 4 <= raw.len() {
            if ends_head(raw, from) {
                assert(w =~= b);
            }
            if crate::http::bytes_at(raw, b, from) {
                assert(w == b);
                assert(raw[from] == w[0] && raw[from + 1] == w[1] && raw[from + 2] == w[2]
                    && raw[from + 3] == w[3]);
            }
        }
        head_end(raw, from + 1);
    }
}

/// The imports of a module are those that its text is searched for.
pub proof fn imports_searched(
    module: Seq<char>,
    g: Seq<(Option<Seq<char>>, Option<Seq<char>>)>,
)
    requires
        crate::health::regex_groups(
            "(?:import|export)\\s+(?:[^'\"]*?\\s+from\\s*)?[\"']([^\"']+)[\"']|import\\(\\s*[\"']([^\"']+)[\"']\\s*\\)"@,
            module,
        ) == Some(g),
    ensures
        crate::health::module_imports(module) == local_imports(g),
{
}

/// The next module to load is the first in the queue that was not loaded yet.
pub proof fn next_module_told(queue: Seq<Seq<char>>, seen: Seq<Seq<char>>, k: int)
    ensures
        0 <= crate::health::seen_in_front(queue, seen) <= queue.len(),
        crate::health::seen_in_front(queue, seen) < queue.len() ==> !seen.contains(
            queue[crate::health::seen_in_front(queue, seen)],
        ),
        0 <= k < crate::health::seen_in_front(queue, seen) ==> seen.contains(queue[k]),
    decreases queue.len(),
{
    if queue.len() > 0 && seen.contains(queue[0]) {
        let d = queue.drop_first();
        next_module_told(d, seen, k - 1);
        if 0 < k < queue.len() {
            assert(d[k - 1] == queue[k]);
        }
        let i = crate::health::seen_in_front(d, seen);
        if i < d.len() {
            assert(d[i] == queue[i + 1]);
        }
    }
}

} // verus!
