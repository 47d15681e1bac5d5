//! Whether an app can be reached through the proxy: its front page, and the modules
//! that the page loads.

use vstd::prelude::*;
use vstd::string::*;

use crate::daemon::state::among;
use crate::http::{blank_line, bytes_from, find_subslice};
use crate::text::{
    begins, cat, cat3, chars_of, cut, debug_text, debugged, dec, decimal, find,
    find_from, has, lines, lines_of, lossy, lossy_text, lowercase, lowered, occurs,
    opt_text, owned, parse_uint, parsed, same, slice_text, split_once, starts_with, texts,
    texts_push, trim, trimmed, words, words_of,
};

verus! {

/// No more modules than this are loaded.
pub const MAX_MODULES: usize = 24;

/// No more bytes of a response than this are read.
pub const MAX_RESPONSE_BYTES: usize = 524288;

/// Whether an app can be reached through the proxy.
#[derive(Debug, PartialEq)]
pub struct ProxyHealth {
    pub ok: bool,
    pub status: Option<u16>,
    pub reason: String,
    pub message: String,
}

/// A response as a mathematical object.
pub struct ResponseV {
    pub status: u16,
    pub headers: Seq<(Seq<char>, Seq<char>)>,
    pub body: Seq<u8>,
}

/// A response: its status, its headers with their names in lower case, and its body.
#[derive(Debug, PartialEq)]
pub struct HttpResponse {
    pub status: u16,
    pub headers: Vec<(String, String)>,
    pub body: Vec<u8>,
}

impl View for HttpResponse {
    type V = ResponseV;

    open spec fn view(&self) -> ResponseV {
        ResponseV {
            status: self.status,
            headers: crate::text::pairs(self.headers@),
            body: self.body@,
        }
    }
}

/// The status in the first line of a response.
pub open spec fn status_of(line: Seq<char>) -> Option<u16> {
    let w = words(line);
    if w.len() >= 2 && starts_with(w[0], "HTTP/"@) {
        match parsed(w[1], 65535) {
            Some(n) => Some(n as u16),
            None => None,
        }
    } else {
        None
    }
}

/// The status in the first line of a response.
pub fn parse_http_status(status_line: &str) -> (r: Option<u16>)
    ensures
        r == status_of(status_line@),
{
    let w = words_of(status_line);
    if w.len() < 2 {
        return None;
    }
    assert(texts(w@)[0] == w@[0]@ && texts(w@)[1] == w@[1]@);
    if !begins(w[0].as_str(), "HTTP/") {
        return None;
    }
    match parse_uint(w[1].as_str(), 65535) {
        Some(n) => Some(n as u16),
        None => None,
    }
}

/// The headers in the lines of a response.
pub open spec fn headers_of(l: Seq<Seq<char>>) -> Seq<(Seq<char>, Seq<char>)>
    decreases l.len(),
{
    if l.len() == 0 {
        Seq::empty()
    } else {
        match split_once(l.last(), ":"@) {
            Some((k, v)) => headers_of(l.drop_last()).push((lowercase(trim(k)), trim(v))),
            None => headers_of(l.drop_last()),
        }
    }
}

/// What the bytes of a response say, or what is wrong with them.
pub open spec fn response_of(raw: Seq<u8>) -> Result<ResponseV, Seq<char>> {
    match bytes_from(raw, blank_line(), 0) {
        None => Err("proxy returned a response without headers"@),
        Some(i) => {
            let l = lines(lossy(raw.take(i)));
            if l.len() == 0 {
                Err("proxy returned an empty response"@)
            } else {
                match status_of(l[0]) {
                    None => Err(
                        "proxy returned a response without an HTTP status: "@ + l[0],
                    ),
                    Some(status) => Ok(
                        ResponseV {
                            status,
                            headers: headers_of(l.drop_first()),
                            body: raw.skip(i + 4),
                        },
                    ),
                }
            }
        },
    }
}

fn part(raw: &Vec<u8>, from: usize, to: usize) -> (r: Vec<u8>)
    requires
        from <= to <= raw@.len(),
    ensures
        r@ == raw@.subrange(from as int, to as int),
{
    let mut r: Vec<u8> = Vec::new();
    let mut i: usize = from;
    while i < to
        invariant
            from <= i <= to <= raw@.len(),
            r@ =~= raw@.subrange(from as int, i as int),
        decreases to - i,
    {
        r.push(raw[i]);
        i += 1;
    }
    r
}

/// Reads a response from its bytes.
pub fn parse_http_response(raw: &Vec<u8>) -> (r: Result<HttpResponse, String>)
    ensures
        match r {
            Ok(h) => response_of(raw@) == Ok::<ResponseV, Seq<char>>(h@),
            Err(e) => response_of(raw@) == Err::<ResponseV, Seq<char>>(e@),
        },
{
    broadcast use crate::text::pairs_push;

    let mut needle: Vec<u8> = Vec::new();
    needle.push(13);
    needle.push(10);
    needle.push(13);
    needle.push(10);
    assert(needle@ =~= blank_line());
    let split: usize = match find_subslice(raw, needle.as_slice()) {
        Some(i) => i,
        None => {
            return Err(owned("proxy returned a response without headers"));
        },
    };
    let len: usize = raw.len();
    let head_bytes = part(raw, 0, split);
    let body = part(raw, split + 4, len);
    assert(head_bytes@ =~= raw@.take(split as int));
    assert(body@ =~= raw@.skip(split + 4));
    let head = lossy_text(&head_bytes);
    let l = lines_of(head.as_str());
    if l.len() == 0 {
        return Err(owned("proxy returned an empty response"));
    }
    assert(texts(l@)[0] == l@[0]@);
    let status: u16 = match parse_http_status(l[0].as_str()) {
        Some(s) => s,
        None => {
            return Err(
                cat("proxy returned a response without an HTTP status: ", l[0].as_str()),
            );
        },
    };
    let mut headers: Vec<(String, String)> = Vec::new();
    let ghost all = texts(l@).drop_first();
    let mut i: usize = 1;
    proof {
        reveal_strlit(":");
    }
    assert(crate::text::pairs(headers@) =~= headers_of(all.take(0)));
    while i < l.len()
        invariant
            1 <= i <= l@.len(),
            ":"@.len() > 0,
            all == texts(l@).drop_first(),
            crate::text::pairs(headers@) == headers_of(all.take(i - 1)),
        decreases l@.len() - i,
    {
        proof {
            assert(all.take(i as int).drop_last() =~= all.take(i - 1));
            assert(all.take(i as int).last() == l@[i as int]@);
        }
        if let Some((k, v)) = cut(l[i].as_str(), ":") {
            headers.push((lowered(trimmed(k.as_str()).as_str()), trimmed(v.as_str())));
        }
        i += 1;
    }
    assert(all.take(i - 1) =~= all);
    Ok(HttpResponse { status, headers, body })
}

/// The value of a header: of two with one name the later counts.
pub open spec fn header(h: Seq<(Seq<char>, Seq<char>)>, name: Seq<char>) -> Option<Seq<char>>
    decreases h.len(),
{
    if h.len() == 0 {
        None
    } else if h.last().0 == name {
        Some(h.last().1)
    } else {
        header(h.drop_last(), name)
    }
}

fn content_type(response: &HttpResponse) -> (r: Option<&str>)
    ensures
        match r {
            Some(t) => header(response@.headers, "content-type"@) == Some(t@),
            None => header(response@.headers, "content-type"@) is None,
        },
{
    let ghost all = response@.headers;
    let mut i: usize = response.headers.len();
    assert(all.take(i as int) =~= all);
    while i > 0
        invariant
            i <= response.headers@.len(),
            all == crate::text::pairs(response.headers@),
            header(all, "content-type"@) == header(all.take(i as int), "content-type"@),
        decreases i,
    {
        assert(all.take(i as int).last() == all[i - 1]);
        assert(all.take(i as int).drop_last() =~= all.take(i - 1));
        if same(response.headers[i - 1].0.as_str(), "content-type") {
            return Some(response.headers[i - 1].1.as_str());
        }
        i -= 1;
    }
    None
}

/// Whether a response is a page.
pub open spec fn shows_html(r: ResponseV) -> bool {
    match header(r.headers, "content-type"@) {
        Some(t) => occurs(lowercase(t), "text/html"@),
        None => false,
    }
}

/// Whether a response is a script.
pub open spec fn is_script(r: ResponseV) -> bool {
    match header(r.headers, "content-type"@) {
        Some(t) => occurs(lowercase(t), "javascript"@) || occurs(lowercase(t), "ecmascript"@),
        None => false,
    }
}

/// Whether a response is a page.
pub fn is_html(response: &HttpResponse) -> (r: bool)
    ensures
        r == shows_html(response@),
{
    match content_type(response) {
        Some(t) => has(lowered(t).as_str(), "text/html"),
        None => false,
    }
}

/// Whether a response is a script.
pub fn is_javascript(response: &HttpResponse) -> (r: bool)
    ensures
        r == is_script(response@),
{
    match content_type(response) {
        Some(t) => {
            let l = lowered(t);
            has(l.as_str(), "javascript") || has(l.as_str(), "ecmascript")
        },
        None => false,
    }
}

/// What is said of the type of a response.
pub open spec fn type_suffix(r: ResponseV) -> Seq<char> {
    match header(r.headers, "content-type"@) {
        Some(t) => " with Content-Type "@ + debugged(t),
        None => " with missing Content-Type"@,
    }
}

/// What is said of the type of a response.
pub fn content_type_suffix(response: &HttpResponse) -> (r: String)
    ensures
        r@ == type_suffix(response@),
{
    match content_type(response) {
        Some(t) => cat(" with Content-Type ", debug_text(t).as_str()),
        None => owned(" with missing Content-Type"),
    }
}

/// A quoted value of an attribute in a tag, with the given quotes.
pub open spec fn quoted_attr(tag: Seq<char>, attr: Seq<char>, quote: Seq<char>) -> Option<
    Option<Seq<char>>,
> {
    let needle = attr + "="@ + quote;
    match find_from(tag, needle, 0) {
        None => None,
        Some(i) => {
            let start = i + needle.len();
            match find_from(tag, quote, start) {
                Some(end) => Some(Some(tag.subrange(start, end))),
                None => Some(None),
            }
        },
    }
}

/// The value of an attribute in a tag, between double quotes or else between single
/// ones. A value that is not closed counts as none.
pub open spec fn attr_of(tag: Seq<char>, attr: Seq<char>) -> Option<Seq<char>> {
    match quoted_attr(tag, attr, "\""@) {
        Some(v) => v,
        None => match quoted_attr(tag, attr, "'"@) {
            Some(v) => v,
            None => None,
        },
    }
}

fn quoted_value(tag: &Vec<char>, attr: &str, quote: &str) -> (r: Option<Option<String>>)
    requires
        quote@.len() > 0,
    ensures
        match r {
            None => quoted_attr(tag@, attr@, quote@) is None,
            Some(None) => quoted_attr(tag@, attr@, quote@) == Some(None::<Seq<char>>),
            Some(Some(v)) => quoted_attr(tag@, attr@, quote@) == Some(Some(v@)),
        },
{
    let needle = cat3(attr, "=", quote);
    let n = chars_of(needle.as_str());
    let q = chars_of(quote);
    proof {
        crate::text::find_is_first(tag@, n@, 0);
    }
    match find(tag, &n, 0) {
        None => None,
        Some(i) => {
            let len: usize = tag.len();
            assert(i + n@.len() <= len);
            let start: usize = i + n.len();
            proof {
                crate::text::find_is_first(tag@, q@, start as int);
            }
            match find(tag, &q, start) {
                Some(end) => Some(Some(slice_text(tag, start, end))),
                None => Some(None),
            }
        },
    }
}

fn attr_in(tag: &Vec<char>, attr: &str) -> (r: Option<String>)
    ensures
        opt_text(r) == attr_of(tag@, attr@),
{
    proof {
        reveal_strlit("\"");
        reveal_strlit("'");
    }
    match quoted_value(tag, attr, "\"") {
        Some(v) => v,
        None => match quoted_value(tag, attr, "'") {
            Some(v) => v,
            None => None,
        },
    }
}

/// The value of an attribute in a tag.
pub fn extract_attr(tag: &str, attr: &str) -> (r: Option<String>)
    ensures
        opt_text(r) == attr_of(tag@, attr@),
{
    attr_in(&chars_of(tag), attr)
}

/// Whether a script tag is that of a module.
pub open spec fn is_module(tag: Seq<char>) -> bool {
    match attr_of(tag, "type"@) {
        Some(v) => lowercase(v) == "module"@,
        None => false,
    }
}

/// Whether a script tag is that of a module.
pub fn has_module_type(tag: &str) -> (r: bool)
    ensures
        r == is_module(tag@),
{
    match extract_attr(tag, "type") {
        Some(v) => same(lowered(v.as_str()).as_str(), "module"),
        None => false,
    }
}

/// Whether a path is one on the same host.
pub open spec fn is_local(path: Seq<char>) -> bool {
    starts_with(path, "/"@) && !starts_with(path, "//"@)
}

/// The path, where it is one on the same host.
pub fn normalize_local_path(path: String) -> (r: Option<String>)
    ensures
        match r {
            Some(p) => p@ == path@ && is_local(path@),
            None => !is_local(path@),
        },
{
    if !begins(path.as_str(), "/") || begins(path.as_str(), "//") {
        return None;
    }
    Some(path)
}

/// The sources of the module scripts of a page, not before index `from`: those on the
/// same host, in order.
pub open spec fn scripts_from(html: Seq<char>, from: int) -> Seq<Seq<char>>
    decreases html.len() - from,
{
    match find_from(html, "<script"@, from) {
        Some(i) => {
            let start = i + "<script"@.len();
            match find_from(html, ">"@, start) {
                Some(end) => if from <= i && start <= end && end < html.len() {
                    let tag = html.subrange(start, end);
                    let rest = scripts_from(html, end + 1);
                    if is_module(tag) {
                        match attr_of(tag, "src"@) {
                            Some(src) => if is_local(src) {
                                seq![src] + rest
                            } else {
                                rest
                            },
                            None => rest,
                        }
                    } else {
                        rest
                    }
                } else {
                    Seq::empty()
                },
                None => Seq::empty(),
            }
        },
        None => Seq::empty(),
    }
}

/// The sources of the module scripts of a page: those on the same host, in order.
pub fn extract_module_scripts(html: &str) -> (r: Vec<String>)
    ensures
        texts(r@) == scripts_from(html@, 0),
{
    broadcast use texts_push;

    let c = chars_of(html);
    let len: usize = c.len();
    let open = chars_of("<script");
    let close = chars_of(">");
    let mut r: Vec<String> = Vec::new();
    let mut from: usize = 0;
    proof {
        reveal_strlit("<script");
        reveal_strlit(">");
    }
    assert(texts(r@) + scripts_from(c@, 0) =~= scripts_from(html@, 0));
    loop
        invariant
            len == c@.len(),
            from <= len,
            c@ == html@,
            open@ == "<script"@,
            open@.len() == 7,
            close@ == ">"@,
            close@.len() == 1,
            texts(r@) + scripts_from(c@, from as int) == scripts_from(html@, 0),
        decreases c@.len() - from,
    {
        proof {
            crate::text::find_is_first(c@, open@, from as int);
        }
        let start: usize = match find(&c, &open, from) {
            Some(i) => i + 7,
            None => {
                assert(texts(r@) =~= scripts_from(html@, 0));
                return r;
            },
        };
        proof {
            crate::text::find_is_first(c@, close@, start as int);
        }
        let end: usize = match find(&c, &close, start) {
            Some(e) => e,
            None => {
                assert(texts(r@) =~= scripts_from(html@, 0));
                return r;
            },
        };
        let tag = slice_text(&c, start, end);
        let ghost before = texts(r@);
        let ghost rest = scripts_from(c@, end + 1);
        let mut source: Option<String> = None;
        if has_module_type(tag.as_str()) {
            source = match extract_attr(tag.as_str(), "src") {
                Some(src) => normalize_local_path(src),
                None => None,
            };
        }
        if let Some(src) = source {
            r.push(src);
            assert(before.push(src@) + rest =~= before + (seq![src@] + rest));
        }
        from = end + 1;
    }
}

/// What `regex::Regex::captures_iter` finds for a pattern: what the first and the
/// second group of each match hold. Nothing where the pattern cannot be read.
pub uninterp spec fn regex_groups(pattern: Seq<char>, text: Seq<char>) -> Option<
    Seq<(Option<Seq<char>>, Option<Seq<char>>)>,
>;

/// The contents of what two groups hold.
pub open spec fn groups_view(v: Seq<(Option<String>, Option<String>)>) -> Seq<
    (Option<Seq<char>>, Option<Seq<char>>),
> {
    v.map_values(|g: (Option<String>, Option<String>)| (opt_text(g.0), opt_text(g.1)))
}

/// `regex::Regex::new` and `captures_iter`: what the first and the second group of
/// each match hold. Nothing is said of how a pattern matches.
#[verifier::external_body]
fn regex_captures(pattern: &str, text: &str) -> (r: Option<Vec<(Option<String>, Option<String>)>>)
    ensures
        match r {
            Some(v) => regex_groups(pattern@, text@) == Some(groups_view(v@)),
            None => regex_groups(pattern@, text@) is None,
        },
{
    let group = |c: &regex::Captures, i: usize| c.get(i).map(|m| m.as_str().to_string());
    let found = |re: regex::Regex| re.captures_iter(text).map(|c| (group(&c, 1), group(&c, 2))).collect();
    regex::Regex::new(pattern).ok().map(found)
}

/// The pattern of what a module imports.
pub open spec fn import_pattern() -> Seq<char> {
    "(?:import|export)\\s+(?:[^'\"]*?\\s+from\\s*)?[\"']([^\"']+)[\"']|import\\(\\s*[\"']([^\"']+)[\"']\\s*\\)"@
}

/// The paths on the same host that groups hold, in order: of each match the first
/// group, or else the second.
pub open spec fn local_imports(g: Seq<(Option<Seq<char>>, Option<Seq<char>>)>) -> Seq<Seq<char>>
    decreases g.len(),
{
    if g.len() == 0 {
        Seq::empty()
    } else {
        let rest = local_imports(g.drop_last());
        let path = match g.last().0 {
            Some(p) => Some(p),
            None => g.last().1,
        };
        match path {
            Some(p) => if is_local(p) {
                rest.push(p)
            } else {
                rest
            },
            None => rest,
        }
    }
}

/// The paths on the same host that groups hold, in order.
pub fn imports_of_groups(groups: Vec<(Option<String>, Option<String>)>) -> (r: Vec<String>)
    ensures
        texts(r@) == local_imports(groups_view(groups@)),
{
    broadcast use texts_push;

    let ghost all = groups_view(groups@);
    let mut r: Vec<String> = Vec::new();
    let mut i: usize = 0;
    assert(texts(r@) =~= local_imports(all.take(0)));
    while i < groups.len()
        invariant
            i <= groups@.len(),
            all == groups_view(groups@),
            texts(r@) == local_imports(all.take(i as int)),
        decreases groups@.len() - i,
    {
        proof {
            assert(all.take(i + 1).drop_last() =~= all.take(i as int));
            assert(all.take(i + 1).last() == all[i as int]);
        }
        let path = match &groups[i].0 {
            Some(p) => Some(p.clone()),
            None => groups[i].1.clone(),
        };
        if let Some(p) = path {
            if let Some(p) = normalize_local_path(p) {
                r.push(p);
            }
        }
        i += 1;
    }
    assert(all.take(i as int) =~= all);
    r
}

/// What a module imports from the same host.
pub open spec fn module_imports(module: Seq<char>) -> Seq<Seq<char>> {
    match regex_groups(import_pattern(), module) {
        Some(g) => local_imports(g),
        None => Seq::empty(),
    }
}

/// What a module imports from the same host, in order.
pub fn extract_local_imports(module: &str) -> (r: Vec<String>)
    ensures
        texts(r@) == module_imports(module@),
{
    match regex_captures(
        "(?:import|export)\\s+(?:[^'\"]*?\\s+from\\s*)?[\"']([^\"']+)[\"']|import\\(\\s*[\"']([^\"']+)[\"']\\s*\\)",
        module,
    ) {
        Some(g) => imports_of_groups(g),
        None => {
            let r: Vec<String> = Vec::new();
            assert(texts(r@) =~= Seq::empty());
            r
        },
    }
}

/// The request for a path behind the proxy.
pub fn proxy_request(hostname: &str, proxy_port: u16, path: &str, user_agent: &str) -> (r: String)
    ensures
        r@ == "GET "@ + path@ + " HTTP/1.1\r\nHost: "@ + hostname@ + ":"@ + dec(proxy_port as nat)
            + "\r\nUser-Agent: "@ + user_agent@ + "\r\nConnection: close\r\n\r\n"@,
{
    let mut r = cat3("GET ", path, " HTTP/1.1\r\nHost: ");
    r.append(hostname);
    r.append(":");
    r.append(decimal(proxy_port as u64).as_str());
    r.append("\r\nUser-Agent: ");
    r.append(user_agent);
    r.append("\r\nConnection: close\r\n\r\n");
    r
}

/// The number of paths at the front of a queue that were seen.
pub open spec fn seen_in_front(queue: Seq<Seq<char>>, seen: Seq<Seq<char>>) -> int
    decreases queue.len(),
{
    if queue.len() == 0 || !seen.contains(queue[0]) {
        0
    } else {
        1 + seen_in_front(queue.drop_first(), seen)
    }
}

/// A queue with the paths that are neither in it nor seen behind it.
pub open spec fn enqueued(queue: Seq<Seq<char>>, seen: Seq<Seq<char>>, paths: Seq<Seq<char>>) -> Seq<
    Seq<char>,
>
    decreases paths.len(),
{
    if paths.len() == 0 {
        queue
    } else {
        let q = enqueued(queue, seen, paths.drop_last());
        if seen.contains(paths.last()) || q.contains(paths.last()) {
            q
        } else {
            q.push(paths.last())
        }
    }
}

/// What is wrong with the response for a module, if anything.
pub open spec fn module_error(path: Seq<char>, r: Result<ResponseV, Seq<char>>) -> Option<Seq<char>> {
    match r {
        Err(e) => Some("module "@ + path + " is not reachable through the proxy: "@ + e),
        Ok(h) => if h.status < 200 || h.status >= 300 {
            Some(
                "module "@ + path + " returned HTTP "@ + dec(h.status as nat)
                    + " through the proxy"@ + type_suffix(h),
            )
        } else if !is_script(h) {
            Some(
                "module "@ + path + " returned disallowed MIME type "@ + (match header(
                    h.headers,
                    "content-type"@,
                ) {
                    Some(t) => debugged(t),
                    None => "\"\""@,
                }) + " through the proxy"@,
            )
        } else {
            None
        },
    }
}

/// A result of a request as a mathematical object.
pub open spec fn reply_view(r: Result<HttpResponse, String>) -> Result<ResponseV, Seq<char>> {
    match r {
        Ok(h) => Ok(h@),
        Err(e) => Err(e@),
    }
}

/// The modules of a page that are still to be loaded, and those that were.
#[derive(Debug)]
pub struct ModuleCheck {
    queue: Vec<String>,
    seen: Vec<String>,
}

impl ModuleCheck {
    /// The modules that are still to be loaded.
    pub closed spec fn queue(self) -> Seq<Seq<char>> {
        texts(self.queue@)
    }

    /// The modules that were loaded.
    pub closed spec fn seen(self) -> Seq<Seq<char>> {
        texts(self.seen@)
    }

    /// Whether no module was loaded twice, and not too many.
    pub open spec fn ok(self) -> bool {
        self.seen().no_duplicates() && self.seen().len() <= MAX_MODULES
    }

    /// The modules of a page.
    pub fn new(html_body: &Vec<u8>) -> (r: ModuleCheck)
        ensures
            r.queue() == scripts_from(lossy(html_body@), 0),
            r.seen() == Seq::<Seq<char>>::empty(),
            r.ok(),
    {
        let html = lossy_text(html_body);
        let r = ModuleCheck { queue: extract_module_scripts(html.as_str()), seen: Vec::new() };
        assert(r.seen() =~= Seq::empty());
        r
    }

    /// The next module to load: the first in the queue that was not loaded, unless
    /// enough were. Each module is given once.
    pub fn next(&mut self) -> (r: Option<String>)
        requires
            old(self).ok(),
        ensures
            final(self).ok(),
            ({
                let k = seen_in_front(old(self).queue(), old(self).seen());
                match r {
                    Some(p) => {
                        &&& k < old(self).queue().len()
                        &&& old(self).seen().len() < MAX_MODULES
                        &&& p@ == old(self).queue()[k]
                        &&& final(self).queue() == old(self).queue().skip(k + 1)
                        &&& final(self).seen() == old(self).seen().push(p@)
                    },
                    None => {
                        &&& k == old(self).queue().len() || old(self).seen().len() >= MAX_MODULES
                        &&& final(self).seen() == old(self).seen()
                        &&& final(self).queue() == (if k < old(self).queue().len() {
                            old(self).queue().skip(k + 1)
                        } else {
                            Seq::empty()
                        })
                    },
                }
            }),
    {
        broadcast use texts_push;

        let ghost q0 = self.queue();
        let ghost s0 = self.seen();
        assert(q0.skip(0) =~= q0);
        let ghost mut k: int = 0;
        while self.queue.len() > 0
            invariant
                0 <= k <= q0.len(),
                self.queue() == q0.skip(k),
                self.seen() == s0,
                s0 == old(self).seen(),
                q0 == old(self).queue(),
                self.ok(),
                seen_in_front(q0, s0) == k + seen_in_front(q0.skip(k), s0),
            decreases self.queue@.len(),
        {
            let ghost rest = q0.skip(k);
            let path = self.queue.remove(0);
            proof {
                assert(rest[0] == path@);
                assert(rest.drop_first() =~= q0.skip(k + 1));
                assert(texts(self.queue@) =~= q0.skip(k + 1));
            }
            if !among(path.as_str(), &self.seen) {
                if self.seen.len() >= MAX_MODULES {
                    return None;
                }
                self.seen.push(path.clone());
                assert(self.seen() == s0.push(path@));
                return Some(path);
            }
            proof {
                k = k + 1;
            }
        }
        assert(q0.skip(k) =~= Seq::empty());
        None
    }

    /// Takes the response for a module: what is wrong with it, or nothing, and then
    /// what the module imports is to be loaded too.
    pub fn on_response(&mut self, path: &str, response: &Result<HttpResponse, String>) -> (r: Result<
        (),
        String,
    >)
        requires
            old(self).ok(),
        ensures
            final(self).ok(),
            final(self).seen() == old(self).seen(),
            match r {
                Ok(_) => {
                    &&& module_error(path@, reply_view(*response)) is None
                    &&& response is Ok
                    &&& final(self).queue() == enqueued(
                        old(self).queue(),
                        old(self).seen(),
                        module_imports(lossy(response->Ok_0.body@)),
                    )
                },
                Err(e) => {
                    &&& module_error(path@, reply_view(*response)) == Some(e@)
                    &&& final(self).queue() == old(self).queue()
                },
            },
    {
        let h = match response {
            Ok(h) => h,
            Err(e) => {
                return Err(
                    cat(
                        cat3(
                            "module ",
                            path,
                            " is not reachable through the proxy: ",
                        ).as_str(),
                        e.as_str(),
                    ),
                );
            },
        };
        if h.status < 200 || h.status >= 300 {
            let mut e = cat3("module ", path, " returned HTTP ");
            e.append(decimal(h.status as u64).as_str());
            e.append(" through the proxy");
            e.append(content_type_suffix(h).as_str());
            return Err(e);
        }
        if !is_javascript(h) {
            let mut e = cat3("module ", path, " returned disallowed MIME type ");
            match content_type(h) {
                Some(t) => {
                    e.append(debug_text(t).as_str());
                },
                None => {
                    e.append("\"\"");
                },
            }
            e.append(" through the proxy");
            return Err(e);
        }
        let body = lossy_text(&h.body);
        let imports = extract_local_imports(body.as_str());
        self.enqueue(&imports);
        Ok(())
    }

    fn enqueue(&mut self, paths: &Vec<String>)
        ensures
            final(self).seen() == old(self).seen(),
            final(self).queue() == enqueued(old(self).queue(), old(self).seen(), texts(paths@)),
    {
        broadcast use texts_push;

        let ghost q0 = self.queue();
        let ghost s0 = self.seen();
        let ghost all = texts(paths@);
        let mut i: usize = 0;
        assert(all.take(0).len() == 0);
        while i < paths.len()
            invariant
                i <= paths@.len(),
                all == texts(paths@),
                self.seen() == s0,
                self.queue() == enqueued(q0, s0, all.take(i as int)),
            decreases paths@.len() - i,
        {
            proof {
                assert(all.take(i + 1).drop_last() =~= all.take(i as int));
                assert(all.take(i + 1).last() == paths@[i as int]@);
            }
            let path = paths[i].as_str();
            if !among(path, &self.seen) && !among(path, &self.queue) {
                self.queue.push(paths[i].clone());
            }
            i += 1;
        }
        assert(all.take(i as int) =~= all);
    }
}

/// What comes next once the front page of an app was asked for.
#[derive(Debug)]
pub enum RootCheck {
    /// The health is known.
    Settled(ProxyHealth),
    /// The page came with this status, and its modules are to be loaded.
    Modules(u16),
}

/// The address of an app behind the proxy.
pub open spec fn root_url(hostname: Seq<char>, proxy_port: u16) -> Seq<char> {
    "http://"@ + hostname + ":"@ + dec(proxy_port as nat) + "/"@
}

fn root_address(hostname: &str, proxy_port: u16) -> (r: String)
    ensures
        r@ == root_url(hostname@, proxy_port),
{
    let mut r = cat3("http://", hostname, ":");
    r.append(decimal(proxy_port as u64).as_str());
    r.append("/");
    r
}

/// Whether a health is the given one.
pub open spec fn health_is(
    h: ProxyHealth,
    ok: bool,
    status: Option<u16>,
    reason: Seq<char>,
    message: Seq<char>,
) -> bool {
    h.ok == ok && h.status == status && h.reason@ == reason && h.message@ == message
}

/// What the answer to a request for the front page of an app says of its health: a
/// proxy error is a failure, a page has its modules loaded, and anything else counts
/// as reachable.
pub fn check_root(hostname: &str, proxy_port: u16, root: &Result<HttpResponse, String>) -> (r:
    RootCheck)
    ensures
        ({
            let at = root_url(hostname@, proxy_port);
            match *root {
                Err(e) => r is Settled && health_is(
                    r->Settled_0,
                    false,
                    None,
                    "ProxyProbeFailed"@,
                    at + " is not reachable through the proxy: "@ + e@,
                ),
                Ok(h) => {
                    let returned = at + " returned HTTP "@ + dec(h.status as nat)
                        + " through the proxy"@;
                    if 502 <= h.status <= 504 {
                        r is Settled && health_is(
                            r->Settled_0,
                            false,
                            Some(h.status),
                            "HTTP"@ + dec(h.status as nat),
                            returned,
                        )
                    } else if h.status < 200 || h.status >= 300 || !shows_html(h@) {
                        r is Settled && health_is(
                            r->Settled_0,
                            true,
                            Some(h.status),
                            "HTTP"@ + dec(h.status as nat),
                            returned,
                        )
                    } else {
                        r is Modules && r->Modules_0 == h.status
                    }
                },
            }
        }),
{
    let at = root_address(hostname, proxy_port);
    match root {
        Err(e) => RootCheck::Settled(
            ProxyHealth {
                ok: false,
                status: None,
                reason: owned("ProxyProbeFailed"),
                message: cat3(at.as_str(), " is not reachable through the proxy: ", e.as_str()),
            },
        ),
        Ok(h) => {
            let broken = 502 <= h.status && h.status <= 504;
            if broken || h.status < 200 || h.status >= 300 || !is_html(h) {
                let code = decimal(h.status as u64);
                let mut message = cat3(at.as_str(), " returned HTTP ", code.as_str());
                message.append(" through the proxy");
                RootCheck::Settled(
                    ProxyHealth {
                        ok: !broken,
                        status: Some(h.status),
                        reason: cat("HTTP", code.as_str()),
                        message,
                    },
                )
            } else {
                RootCheck::Modules(h.status)
            }
        },
    }
}

/// The health of an app whose page came with the status, given what is wrong with its
/// modules.
pub fn check_modules(hostname: &str, proxy_port: u16, status: u16, modules: Result<(), String>) -> (r:
    ProxyHealth)
    ensures
        match modules {
            Ok(_) => health_is(
                r,
                true,
                Some(status),
                "HTTP"@ + dec(status as nat),
                root_url(hostname@, proxy_port) + " returned HTTP "@ + dec(status as nat)
                    + " and module assets loaded through the proxy"@,
            ),
            Err(e) => health_is(r, false, Some(status), "ModuleProbeFailed"@, e@),
        },
{
    match modules {
        Ok(_) => {
            let code = decimal(status as u64);
            let mut message = cat3(
                root_address(hostname, proxy_port).as_str(),
                " returned HTTP ",
                code.as_str(),
            );
            message.append(" and module assets loaded through the proxy");
            ProxyHealth {
                ok: true,
                status: Some(status),
                reason: cat("HTTP", code.as_str()),
                message,
            }
        },
        Err(e) => ProxyHealth {
            ok: false,
            status: Some(status),
            reason: owned("ModuleProbeFailed"),
            message: e,
        },
    }
}

} // verus!
