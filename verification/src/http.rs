//! Requests that go through the proxy: what their heads say, what is forwarded, and
//! what is answered where nothing is.

use vstd::prelude::*;
use vstd::slice::*;
use vstd::string::*;
use vstd::utf8::encode_utf8;

use crate::proxy::{
    backend, format_url, routes_view, url, ProxyRegistry, MAX_HEAD_BYTES, MAX_PROXY_HOPS,
};
use crate::text::{
    cat, cat3, cut, dec, decimal, lossy, lossy_text, lowercase, lowered, parse_uint, parsed,
    pieces, replace, replaced, same, split, split_once, texts, trim, trimmed,
};

verus! {

/// Whether the bytes `p` stand at index `i`.
pub open spec fn bytes_at(s: Seq<u8>, p: Seq<u8>, i: int) -> bool {
    0 <= i && i + p.len() <= s.len() && s.subrange(i, i + p.len()) == p
}

/// The first index, not before `i`, at which the bytes `p` stand.
pub open spec fn bytes_from(s: Seq<u8>, p: Seq<u8>, i: int) -> Option<int>
    decreases s.len() - i,
{
    if i < 0 || i >= s.len() {
        None
    } else if bytes_at(s, p, i) {
        Some(i)
    } else {
        bytes_from(s, p, i + 1)
    }
}

proof fn no_room(s: Seq<u8>, p: Seq<u8>, i: int)
    requires
        i + p.len() > s.len(),
    ensures
        bytes_from(s, p, i) is None,
    decreases s.len() - i,
{
    if 0 <= i < s.len() {
        no_room(s, p, i + 1);
    }
}

/// The first index at which some bytes stand, which are not empty.
pub fn find_subslice(haystack: &Vec<u8>, needle: &[u8]) -> (r: Option<usize>)
    requires
        needle@.len() > 0,
    ensures
        match r {
            Some(i) => bytes_from(haystack@, needle@, 0) == Some(i as int) && i + needle@.len()
                <= haystack@.len(),
            None => bytes_from(haystack@, needle@, 0) is None,
        },
{
    let n: usize = needle.len();
    let len: usize = haystack.len();
    let mut i: usize = 0;
    while i < len && n <= len - i
        invariant
            len == haystack@.len(),
            i <= len,
            n == needle@.len(),
            n > 0,
            bytes_from(haystack@, needle@, 0) == bytes_from(haystack@, needle@, i as int),
        decreases haystack@.len() - i,
    {
        let mut k: usize = 0;
        while k < n && haystack[i + k] == needle[k]
            invariant
                k <= n,
                n == needle@.len(),
                len == haystack@.len(),
                i + n <= len,
                forall|j: int| 0 <= j < k ==> haystack@[i + j] == #[trigger] needle@[j],
            decreases n - k,
        {
            k += 1;
        }
        if k == n {
            assert(haystack@.subrange(i as int, i + n) =~= needle@);
            return Some(i);
        }
        assert(haystack@.subrange(i as int, i + n)[k as int] == haystack@[i + k]);
        i += 1;
    }
    proof {
        no_room(haystack@, needle@, i as int);
    }
    None
}

/// The blank line behind a head.
pub open spec fn blank_line() -> Seq<u8> {
    seq![13u8, 10u8, 13u8, 10u8]
}

fn find_blank_line(buf: &Vec<u8>) -> (r: Option<usize>)
    ensures
        match r {
            Some(i) => bytes_from(buf@, blank_line(), 0) == Some(i as int) && i + 4 <= buf@.len(),
            None => bytes_from(buf@, blank_line(), 0) is None,
        },
{
    let mut needle: Vec<u8> = Vec::new();
    needle.push(13);
    needle.push(10);
    needle.push(13);
    needle.push(10);
    assert(needle@ =~= blank_line());
    find_subslice(buf, needle.as_slice())
}

/// How far the head of a request has been read.
#[derive(Debug, Clone, Copy, PartialEq, Eq)]
pub enum HeadRead {
    /// The head ends before this index; what follows is the body's.
    Complete(usize),
    /// There are too many bytes without an end of the head.
    TooLarge,
    /// More is to be read.
    More,
}

/// How far the head of a request has been read, given the bytes so far.
pub fn head_read(buf: &Vec<u8>) -> (r: HeadRead)
    ensures
        match bytes_from(buf@, blank_line(), 0) {
            Some(i) => r is Complete && r->Complete_0 == i + 4,
            None => r == (if buf@.len() > MAX_HEAD_BYTES {
                HeadRead::TooLarge
            } else {
                HeadRead::More
            }),
        },
{
    let len: usize = buf.len();
    match find_blank_line(buf) {
        Some(i) => HeadRead::Complete(i + 4),
        None => if len > MAX_HEAD_BYTES {
            HeadRead::TooLarge
        } else {
            HeadRead::More
        },
    }
}

/// What the head of a request says, as a mathematical object.
pub struct HeadV {
    pub host: Seq<char>,
    pub hops: u32,
    pub is_websocket: bool,
}

/// What a header line adds to what the head says: the last host and the last number of
/// hops count.
pub open spec fn head_with(h: HeadV, line: Seq<char>) -> HeadV {
    match split_once(line, ":"@) {
        None => h,
        Some((k, v)) => {
            let key = lowercase(trim(k));
            let val = trim(v);
            if key == "host"@ {
                HeadV { host: split(val, ":"@)[0], ..h }
            } else if key == "x-portless-hops"@ {
                HeadV {
                    hops: match parsed(val, u32::MAX as nat) {
                        Some(n) => n as u32,
                        None => 0,
                    },
                    ..h
                }
            } else if key == "upgrade"@ && lowercase(val) == "websocket"@ {
                HeadV { is_websocket: true, ..h }
            } else {
                h
            }
        },
    }
}

/// What header lines say.
pub open spec fn head_of_lines(lines: Seq<Seq<char>>) -> HeadV
    decreases lines.len(),
{
    if lines.len() == 0 {
        HeadV { host: Seq::empty(), hops: 0, is_websocket: false }
    } else {
        head_with(head_of_lines(lines.drop_last()), lines.last())
    }
}

/// What the text of a head says: its lines but the first are headers.
pub open spec fn head_of(text: Seq<char>) -> HeadV {
    head_of_lines(split(text, "\r\n"@).drop_first())
}

/// The head of a request: its bytes, and what they say.
#[derive(Debug)]
pub struct Head {
    pub raw: Vec<u8>,
    pub host: String,
    pub hops: u32,
    pub is_websocket: bool,
}

impl Head {
    /// What the head says.
    pub open spec fn says(self) -> HeadV {
        HeadV { host: self.host@, hops: self.hops, is_websocket: self.is_websocket }
    }
}

/// Reads the head of a request from its bytes.
pub fn parse_head(raw: Vec<u8>) -> (r: Head)
    ensures
        r.raw@ == raw@,
        r.says() == head_of(lossy(raw@)),
        vstd::utf8::valid_utf8(raw@) ==> r.says() == head_of(vstd::utf8::decode_utf8(raw@)),
{
    let text = lossy_text(&raw);
    let mut host = String::new();
    let mut hops: u32 = 0;
    let mut is_websocket = false;
    proof {
        reveal_strlit("\r\n");
        reveal_strlit(":");
        assert(host@ =~= Seq::empty());
    }
    let lines = pieces(text.as_str(), "\r\n");
    let ghost all = texts(lines@).drop_first();
    let mut i: usize = 1;
    assert(all.take(0).len() == 0);
    while i < lines.len()
        invariant
            1 <= i <= lines@.len(),
            ":"@.len() > 0,
            all == texts(lines@).drop_first(),
            (HeadV { host: host@, hops, is_websocket }) == head_of_lines(all.take(i - 1)),
        decreases lines@.len() - i,
    {
        proof {
            assert(all.take(i as int).drop_last() =~= all.take(i - 1));
            assert(all.take(i as int).last() == lines@[i as int]@);
        }
        if let Some((k, v)) = cut(lines[i].as_str(), ":") {
            let key = lowered(trimmed(k.as_str()).as_str());
            let val = trimmed(v.as_str());
            if same(key.as_str(), "host") {
                let parts = pieces(val.as_str(), ":");
                assert(texts(parts@)[0] == parts@[0]@);
                host = parts[0].clone();
            } else if same(key.as_str(), "x-portless-hops") {
                hops = match parse_uint(val.as_str(), u32::MAX as u64) {
                    Some(n) => n as u32,
                    None => 0,
                };
            } else if same(key.as_str(), "upgrade") {
                if same(lowered(val.as_str()).as_str(), "websocket") {
                    is_websocket = true;
                }
            }
        }
        i += 1;
    }
    assert(all.take(i - 1) =~= all);
    Head { raw, host, hops, is_websocket }
}

/// The headers that the proxy adds to a request.
pub open spec fn added_headers(h: HeadV, tls: bool) -> Seq<char> {
    "X-Forwarded-For: 127.0.0.1\r\nX-Forwarded-Proto: "@ + (if tls {
        "https"@
    } else {
        "http"@
    }) + "\r\nX-Forwarded-Host: "@ + h.host + "\r\nx-portless-hops: "@ + dec((h.hops + 1) as nat)
        + "\r\n"@
}

/// The bytes of a head with the headers that the proxy adds, before the blank line.
pub open spec fn rewritten(raw: Seq<u8>, extra: Seq<char>) -> Seq<u8> {
    raw.take(raw.len() - 2) + encode_utf8(extra) + raw.skip(raw.len() - 2)
}

/// The head of a request as it goes to the backend: with the headers that tell who
/// asked and how, and one hop more.
pub fn rewrite_head(head: &Head, tls: bool) -> (r: Vec<u8>)
    requires
        head.raw@.len() >= 2,
        head.hops < u32::MAX,
    ensures
        r@ == rewritten(head.raw@, added_headers(head.says(), tls)),
{
    let proto = if tls {
        "https"
    } else {
        "http"
    };
    let mut extra = cat("X-Forwarded-For: 127.0.0.1\r\nX-Forwarded-Proto: ", proto);
    extra.append("\r\nX-Forwarded-Host: ");
    extra.append(head.host.as_str());
    extra.append("\r\nx-portless-hops: ");
    extra.append(decimal(head.hops as u64 + 1).as_str());
    extra.append("\r\n");
    let mut out: Vec<u8> = Vec::new();
    let end: usize = head.raw.len() - 2;
    let mut i: usize = 0;
    while i < end
        invariant
            i <= end,
            end == head.raw@.len() - 2,
            out@ == head.raw@.take(i as int),
        decreases end - i,
    {
        out.push(head.raw[i]);
        assert(head.raw@.take(i + 1) =~= head.raw@.take(i as int).push(head.raw@[i as int]));
        i += 1;
    }
    let bytes = extra.as_str().as_bytes();
    let ghost first = out@;
    let mut k: usize = 0;
    assert(bytes@.take(0) =~= Seq::empty());
    while k < bytes.len()
        invariant
            k <= bytes@.len(),
            out@ == first + bytes@.take(k as int),
        decreases bytes@.len() - k,
    {
        out.push(bytes[k]);
        assert(bytes@.take(k + 1) =~= bytes@.take(k as int).push(bytes@[k as int]));
        k += 1;
    }
    assert(bytes@.take(k as int) =~= bytes@);
    out.push(head.raw[end]);
    out.push(head.raw[end + 1]);
    assert(out@ =~= rewritten(head.raw@, added_headers(head.says(), tls)));
    out
}

/// What a status is called.
pub open spec fn reason_of(status: u16) -> Seq<char> {
    if status == 400 {
        "Bad Request"@
    } else if status == 404 {
        "Not Found"@
    } else if status == 502 {
        "Bad Gateway"@
    } else if status == 508 {
        "Loop Detected"@
    } else {
        "OK"@
    }
}

/// What a status is called.
pub fn reason(status: u16) -> (r: &'static str)
    ensures
        r@ == reason_of(status),
{
    match status {
        400 => "Bad Request",
        404 => "Not Found",
        502 => "Bad Gateway",
        508 => "Loop Detected",
        _ => "OK",
    }
}

/// A response of the proxy itself.
pub open spec fn response(status: u16, content_type: Seq<char>, body: Seq<char>) -> Seq<char> {
    "HTTP/1.1 "@ + dec(status as nat) + " "@ + reason_of(status) + "\r\nContent-Type: "@
        + content_type + "\r\nContent-Length: "@ + dec(encode_utf8(body).len())
        + "\r\nX-Portless: 1\r\nConnection: close\r\n\r\n"@ + body
}

fn respond(status: u16, content_type: &str, body: &str) -> (r: String)
    ensures
        r@ == response(status, content_type@, body@),
{
    let mut r = cat3("HTTP/1.1 ", decimal(status as u64).as_str(), " ");
    r.append(reason(status));
    r.append("\r\nContent-Type: ");
    r.append(content_type);
    r.append("\r\nContent-Length: ");
    r.append(decimal(body.as_bytes().len() as u64).as_str());
    r.append("\r\nX-Portless: 1\r\nConnection: close\r\n\r\n");
    r.append(body);
    r
}

/// A response in plain text.
pub open spec fn simple_response(status: u16, msg: Seq<char>) -> Seq<char> {
    response(status, "text/plain"@, dec(status as nat) + " "@ + msg + "\n"@)
}

/// A response in plain text.
pub fn write_simple(status: u16, msg: &str) -> (r: String)
    ensures
        r@ == simple_response(status, msg@),
{
    let mut body = cat3(decimal(status as u64).as_str(), " ", msg);
    body.append("\n");
    respond(status, "text/plain", body.as_str())
}

/// A page of the proxy itself.
pub open spec fn page(status: u16, body: Seq<char>) -> Seq<char> {
    "<!doctype html><html><head><meta charset=utf-8><title>"@ + dec(status as nat) + " "@
        + reason_of(status)
        + "</title><style>body{font-family:ui-monospace,monospace;background:#1d1d1d;color:#eee;padding:3rem;max-width:42rem;margin:auto}a{color:#7cd}code{color:#9c9}</style></head><body>"@
        + body + "</body></html>"@
}

/// A response that shows a page.
pub open spec fn html_response(status: u16, body: Seq<char>) -> Seq<char> {
    response(status, "text/html; charset=utf-8"@, page(status, body))
}

/// A response that shows a page.
pub fn write_html(status: u16, body: &str) -> (r: String)
    ensures
        r@ == html_response(status, body@),
{
    let mut text = cat3(
        "<!doctype html><html><head><meta charset=utf-8><title>",
        decimal(status as u64).as_str(),
        " ",
    );
    text.append(reason(status));
    text.append(
        "</title><style>body{font-family:ui-monospace,monospace;background:#1d1d1d;color:#eee;padding:3rem;max-width:42rem;margin:auto}a{color:#7cd}code{color:#9c9}</style></head><body>",
    );
    text.append(body);
    text.append("</body></html>");
    respond(status, "text/html; charset=utf-8", text.as_str())
}

/// A text in which the characters that HTML gives a meaning are written out.
pub open spec fn escaped(s: Seq<char>) -> Seq<char> {
    replaced(
        replaced(replaced(replaced(s, '&', "&amp;"@), '<', "&lt;"@), '>', "&gt;"@),
        '"',
        "&quot;"@,
    )
}

/// A text in which the characters that HTML gives a meaning are written out.
pub fn html_escape(s: &str) -> (r: String)
    ensures
        r@ == escaped(s@),
{
    let a = replace(s, '&', "&amp;");
    let b = replace(a.as_str(), '<', "&lt;");
    let c = replace(b.as_str(), '>', "&gt;");
    replace(c.as_str(), '"', "&quot;")
}

/// An entry of the list of apps.
pub open spec fn app_item(route: (Seq<char>, u16), proxy_port: u16) -> Seq<char> {
    "<li><a href=\""@ + url(route.0, proxy_port, false) + "\">"@ + escaped(route.0)
        + "</a> \u{2192} <code>127.0.0.1:"@ + dec(route.1 as nat) + "</code></li>"@
}

/// The entries of the list of apps.
pub open spec fn app_items(routes: Seq<(Seq<char>, u16)>, proxy_port: u16) -> Seq<char>
    decreases routes.len(),
{
    if routes.len() == 0 {
        Seq::empty()
    } else {
        app_items(routes.drop_last(), proxy_port) + app_item(routes.last(), proxy_port)
    }
}

/// What is shown for a host without a route: which apps there are.
pub open spec fn not_found(host: Seq<char>, routes: Seq<(Seq<char>, u16)>, proxy_port: u16) -> Seq<
    char,
> {
    "<h1>404 Not Found</h1><p>No app registered for <strong>"@ + escaped(host) + "</strong></p>"@
        + (if routes.len() == 0 {
        "<p>No apps registered.</p>"@
    } else {
        "<p>Active apps:</p><ul>"@ + app_items(routes, proxy_port) + "</ul>"@
    })
}

/// What is shown for a host without a route.
pub fn not_found_body(host: &str, registry: &ProxyRegistry, proxy_port: u16) -> (r: String)
    ensures
        r@ == not_found(host@, registry@, proxy_port),
{
    let routes = registry.snapshot();
    let ghost all = routes_view(routes@);
    let mut r = cat3(
        "<h1>404 Not Found</h1><p>No app registered for <strong>",
        html_escape(host).as_str(),
        "</strong></p>",
    );
    if routes.len() == 0 {
        r.append("<p>No apps registered.</p>");
        return r;
    }
    let mut items = String::new();
    let mut i: usize = 0;
    assert(items@ =~= app_items(all.take(0), proxy_port));
    while i < routes.len()
        invariant
            i <= routes@.len(),
            all == routes_view(routes@),
            items@ == app_items(all.take(i as int), proxy_port),
        decreases routes@.len() - i,
    {
        let route = &routes[i];
        proof {
            assert(all.take(i + 1).drop_last() =~= all.take(i as int));
            assert(all.take(i + 1).last() == (route.hostname@, route.port));
        }
        let mut item = cat3(
            "<li><a href=\"",
            format_url(route.hostname.as_str(), proxy_port, false).as_str(),
            "\">",
        );
        item.append(html_escape(route.hostname.as_str()).as_str());
        item.append("</a> \u{2192} <code>127.0.0.1:");
        item.append(decimal(route.port as u64).as_str());
        item.append("</code></li>");
        items.append(item.as_str());
        i += 1;
    }
    assert(all.take(i as int) =~= all);
    r.append("<p>Active apps:</p><ul>");
    r.append(items.as_str());
    r.append("</ul>");
    assert(r@ =~= not_found(host@, registry@, proxy_port));
    r
}

/// What the proxy does with a request.
#[derive(Debug, PartialEq)]
pub enum ProxyStep {
    /// It answers itself.
    Reply(String),
    /// It connects to the backend on the port.
    Connect(u16),
}

/// What the proxy does with a request: one without a host, one that passed through it
/// too often, and one for a host without a route are answered; others are forwarded.
pub fn route_request(head: &Head, registry: &ProxyRegistry, proxy_port: u16) -> (r: ProxyStep)
    ensures
        match r {
            ProxyStep::Reply(text) => text@ == (if head.host@.len() == 0 {
                simple_response(400, "Missing Host header"@)
            } else if head.hops >= MAX_PROXY_HOPS {
                simple_response(
                    508,
                    "Loop Detected: request passed through the proxy too many times"@,
                )
            } else {
                html_response(404, not_found(head.host@, registry@, proxy_port))
            }) && (head.host@.len() == 0 || head.hops >= MAX_PROXY_HOPS || backend(
                registry@,
                head.host@,
            ) is None),
            ProxyStep::Connect(port) => head.host@.len() > 0 && head.hops < MAX_PROXY_HOPS
                && backend(registry@, head.host@) == Some(port),
        },
{
    if head.host.as_str().is_empty() {
        return ProxyStep::Reply(write_simple(400, "Missing Host header"));
    }
    if head.hops >= MAX_PROXY_HOPS {
        return ProxyStep::Reply(
            write_simple(508, "Loop Detected: request passed through the proxy too many times"),
        );
    }
    match registry.lookup(head.host.as_str()) {
        Some(port) => ProxyStep::Connect(port),
        None => {
            let body = not_found_body(head.host.as_str(), registry, proxy_port);
            ProxyStep::Reply(write_html(404, body.as_str()))
        },
    }
}

/// What is answered where the backend cannot be reached.
pub fn bad_gateway(host: &str, port: u16) -> (r: String)
    ensures
        r@ == html_response(
            502,
            "<h1>502 Bad Gateway</h1><p>No app responding on 127.0.0.1:"@ + dec(port as nat)
                + " for <strong>"@ + escaped(host@)
                + "</strong>. It may not be running yet.</p>"@,
        ),
{
    let mut body = cat3(
        "<h1>502 Bad Gateway</h1><p>No app responding on 127.0.0.1:",
        decimal(port as u64).as_str(),
        " for <strong>",
    );
    body.append(html_escape(host).as_str());
    body.append("</strong>. It may not be running yet.</p>");
    write_html(502, body.as_str())
}

/// What a plain request to the port of a TLS proxy is answered: where to go instead.
pub fn redirect_to_https(host: &str, proxy_port: u16) -> (r: String)
    ensures
        r@ == "HTTP/1.1 308 Permanent Redirect\r\nLocation: "@ + ("https://"@ + host@ + (
        if proxy_port == 443 {
            Seq::empty()
        } else {
            ":"@ + dec(proxy_port as nat)
        }) + "/"@) + "\r\nContent-Length: 0\r\nX-Portless: 1\r\nConnection: close\r\n\r\n"@,
{
    let mut location = cat("https://", host);
    if proxy_port != 443 {
        location.append(":");
        location.append(decimal(proxy_port as u64).as_str());
    }
    location.append("/");
    proof {
        assert(location@ =~= "https://"@ + host@ + (if proxy_port == 443 {
            Seq::empty()
        } else {
            ":"@ + dec(proxy_port as nat)
        }) + "/"@);
    }
    cat3(
        "HTTP/1.1 308 Permanent Redirect\r\nLocation: ",
        location.as_str(),
        "\r\nContent-Length: 0\r\nX-Portless: 1\r\nConnection: close\r\n\r\n",
    )
}

/// Whether a connection to a TLS proxy starts with a TLS handshake, by its first byte.
pub fn is_tls_hello(first: u8) -> (r: bool)
    ensures
        r == (first == 0x16),
{
    first == 0x16
}

} // verus!
