//! What is read from requests and written into responses, whatever they hold.

use vstd::prelude::*;
use vstd::string::*;

use crate::http::{
    added_headers, app_item, app_items, escaped, head_of_lines, not_found, reason_of, response,
    HeadV,
};
use crate::probe::{planned, ProbePlan};
use crate::proxy::{url, PortReservation};
use crate::proxy_handle::{first_unclaimed, local_reservation, released};
use crate::engine::services::ResolvedProbe;
use crate::text::{
    dec, lines, lowercase, matches_at, occurs, parsed, parsed_dec, replaced, split, texts,
};
use crate::text_laws::{
    blank, first_char, lacks, no_char, one_piece, pieces_apart, snug, trims_around,
};
use vstd::utf8::encode_utf8;

verus! {

/// The lines of a text are what its line feeds end, without a carriage return before them,
/// and what stands behind the last.
pub proof fn lines_told(a: Seq<char>, b: Seq<char>)
    requires
        lacks(a, '\n'),
    ensures
        lines(Seq::empty()) == Seq::<Seq<char>>::empty(),
        a.len() > 0 ==> lines(a) == seq![a],
        a.len() == 0 || a.last() != '\r' ==> lines(a + "\n"@ + b) == seq![a] + lines(b),
        lines(a + "\r\n"@ + b) == seq![a] + lines(b),
{
    reveal_strlit("\n");
    reveal_strlit("\r\n");
    assert("\n"@ =~= seq!['\n']);
    let s = a + "\n"@ + b;
    first_char(a, '\n', b, 0);
    assert(s.take(a.len() as int) =~= a);
    assert(s.skip((a.len() + 1) as int) =~= b);
    no_char(a, '\n', 0);
    let r = a.push('\r');
    let t = a + "\r\n"@ + b;
    assert(t =~= r + seq!['\n'] + b);
    assert forall|i: int| 0 <= i < r.len() implies #[trigger] r[i] != '\n' by {
        if i < a.len() {
            assert(r[i] == a[i]);
        }
    }
    first_char(r, '\n', b, 0);
    assert(t.take(r.len() as int) =~= r);
    assert(t.skip((r.len() + 1) as int) =~= b);
    assert(r.drop_last() =~= a);
}

/// The host of a request is what its header says, without a port; the last one counts.
pub proof fn host_read(
    before: Seq<Seq<char>>,
    name: Seq<char>,
    gap: Seq<char>,
    host: Seq<char>,
    port: Seq<char>,
)
    requires
        snug(name),
        lacks(name, ':'),
        lowercase(name) == "host"@,
        blank(gap),
        snug(host),
        lacks(host, ':'),
        snug(host + ":"@ + port),
    ensures
        head_of_lines(before.push(name + ":"@ + gap + host)) == (HeadV {
            host,
            ..head_of_lines(before)
        }),
        head_of_lines(before.push(name + ":"@ + gap + (host + ":"@ + port))) == (HeadV {
            host,
            ..head_of_lines(before)
        }),
{
    reveal_strlit(":");
    assert(":"@ =~= seq![':']);
    reveal_strlit("host");
    line_read(before, name, gap, host);
    line_read(before, name, gap, host + ":"@ + port);
    one_piece(host, ':');
    pieces_apart(host, ':', port);
    assert(split(host + ":"@ + port, ":"@)[0] == host);
}

/// A header line adds what its name and value say.
proof fn line_read(before: Seq<Seq<char>>, name: Seq<char>, gap: Seq<char>, value: Seq<char>)
    requires
        snug(name),
        lacks(name, ':'),
        blank(gap),
        snug(value),
    ensures
        ({
            let h = head_of_lines(before);
            let t = head_of_lines(before.push(name + ":"@ + gap + value));
            &&& lowercase(name) == "host"@ ==> t == (HeadV { host: split(value, ":"@)[0], ..h })
            &&& lowercase(name) == "x-portless-hops"@ ==> t == (HeadV {
                hops: match parsed(value, u32::MAX as nat) {
                    Some(n) => n as u32,
                    None => 0,
                },
                ..h
            })
            &&& lowercase(name) == "upgrade"@ && lowercase(value) == "websocket"@ ==> t == (HeadV {
                is_websocket: true,
                ..h
            })
            &&& lowercase(name) == "upgrade"@ && lowercase(value) != "websocket"@ ==> t == h
            &&& lowercase(name) != "host"@ && lowercase(name) != "x-portless-hops"@ && lowercase(
                name,
            ) != "upgrade"@ ==> t == h
        }),
{
    reveal_strlit(":");
    reveal_strlit("host");
    reveal_strlit("x-portless-hops");
    reveal_strlit("upgrade");
    assert("host"@.len() == 4 && "x-portless-hops"@.len() == 15 && "upgrade"@.len() == 7);
    assert(":"@ =~= seq![':']);
    let line = name + ":"@ + gap + value;
    let v = gap + value;
    assert(line =~= name + seq![':'] + v);
    first_char(name, ':', v, 0);
    assert(line.take(name.len() as int) =~= name);
    assert(line.skip((name.len() + 1) as int) =~= v);
    let e = Seq::<char>::empty();
    assert(gap + value + e =~= v);
    trims_around(gap, value, e);
    assert(e + name + e =~= name);
    trims_around(e, name, e);
    assert(before.push(line).drop_last() =~= before);
    assert(before.push(line).last() == line);
}

/// How often a request was passed on is what its header says; what is no number counts as
/// none.
pub proof fn hops_read(
    before: Seq<Seq<char>>,
    name: Seq<char>,
    gap: Seq<char>,
    n: u32,
    other: Seq<char>,
)
    requires
        snug(name),
        lacks(name, ':'),
        lowercase(name) == "x-portless-hops"@,
        blank(gap),
        snug(other),
        parsed(other, u32::MAX as nat) is None,
    ensures
        head_of_lines(before.push(name + ":"@ + gap + dec(n as nat))) == (HeadV {
            hops: n,
            ..head_of_lines(before)
        }),
        head_of_lines(before.push(name + ":"@ + gap + other)) == (HeadV {
            hops: 0,
            ..head_of_lines(before)
        }),
{
    crate::text::dec_is_digits(n as nat);
    parsed_dec(n as nat, u32::MAX as nat);
    let d = dec(n as nat);
    assert(crate::text::is_digit(d[0]) && crate::text::is_digit(d[d.len() - 1]));
    line_read(before, name, gap, d);
    line_read(before, name, gap, other);
}

/// A request asks for a web socket just where its header says so; other headers, and lines
/// that are none, say nothing of host, hops and sockets.
pub proof fn others_read(
    before: Seq<Seq<char>>,
    name: Seq<char>,
    gap: Seq<char>,
    value: Seq<char>,
    line: Seq<char>,
)
    requires
        snug(name),
        lacks(name, ':'),
        blank(gap),
        snug(value),
        lacks(line, ':'),
    ensures
        lowercase(name) == "upgrade"@ && lowercase(value) == "websocket"@ ==> head_of_lines(
            before.push(name + ":"@ + gap + value),
        ) == (HeadV { is_websocket: true, ..head_of_lines(before) }),
        lowercase(name) == "upgrade"@ && lowercase(value) != "websocket"@ ==> head_of_lines(
            before.push(name + ":"@ + gap + value),
        ) == head_of_lines(before),
        lowercase(name) != "host"@ && lowercase(name) != "x-portless-hops"@ && lowercase(name)
            != "upgrade"@ ==> head_of_lines(before.push(name + ":"@ + gap + value))
            == head_of_lines(before),
        head_of_lines(before.push(line)) == head_of_lines(before),
        head_of_lines(Seq::empty()) == (HeadV { host: Seq::empty(), hops: 0, is_websocket: false }),
{
    line_read(before, name, gap, value);
    reveal_strlit(":");
    assert(":"@ =~= seq![':']);
    no_char(line, ':', 0);
    assert(before.push(line).drop_last() =~= before);
}

/// What stands in a text.
proof fn stands(a: Seq<char>, p: Seq<char>, b: Seq<char>)
    ensures
        occurs(a + p + b, p),
{
    let s = a + p + b;
    assert(s.subrange(a.len() as int, (a.len() + p.len()) as int) =~= p);
    assert(matches_at(s, p, a.len() as int));
}

/// The backend is told whom a request comes for: the client, the protocol that it spoke,
/// and the host that it asked for.
pub proof fn backend_told(h: HeadV, tls: bool)
    ensures
        occurs(added_headers(h, tls), "X-Forwarded-For: 127.0.0.1\r\n"@),
        tls ==> occurs(added_headers(h, tls), "X-Forwarded-Proto: https\r\n"@),
        !tls ==> occurs(added_headers(h, tls), "X-Forwarded-Proto: http\r\n"@),
        occurs(added_headers(h, tls), "X-Forwarded-Host: "@ + h.host + "\r\n"@),
        occurs(
            added_headers(h, tls),
            "x-portless-hops: "@ + dec((h.hops + 1) as nat) + "\r\n"@,
        ),
{
    let client = "X-Forwarded-For: 127.0.0.1\r\n"@;
    let proto = if tls {
        "https"@
    } else {
        "http"@
    };
    let kind = "X-Forwarded-Proto: "@ + proto + "\r\n"@;
    let host = "X-Forwarded-Host: "@ + h.host + "\r\n"@;
    let hops = "x-portless-hops: "@ + dec((h.hops + 1) as nat) + "\r\n"@;
    client_line();
    protocol_line();
    host_line();
    hops_line();
    regrouped(
        client,
        "X-Forwarded-Proto: "@,
        proto,
        "\r\n"@,
        "X-Forwarded-Host: "@,
        h.host,
        "x-portless-hops: "@,
        dec((h.hops + 1) as nat),
    );
    four_stand(client, kind, host, hops);
}

proof fn client_line()
    ensures
        "X-Forwarded-For: 127.0.0.1\r\nX-Forwarded-Proto: "@ == "X-Forwarded-For: 127.0.0.1\r\n"@
            + "X-Forwarded-Proto: "@,
{
    reveal_strlit("X-Forwarded-For: 127.0.0.1\r\nX-Forwarded-Proto: ");
    reveal_strlit("X-Forwarded-For: 127.0.0.1\r\n");
    reveal_strlit("X-Forwarded-Proto: ");
    assert("X-Forwarded-For: 127.0.0.1\r\nX-Forwarded-Proto: "@
        =~= "X-Forwarded-For: 127.0.0.1\r\n"@ + "X-Forwarded-Proto: "@);
}

proof fn protocol_line()
    ensures
        "X-Forwarded-Proto: https\r\n"@ == "X-Forwarded-Proto: "@ + "https"@ + "\r\n"@,
        "X-Forwarded-Proto: http\r\n"@ == "X-Forwarded-Proto: "@ + "http"@ + "\r\n"@,
{
    reveal_strlit("X-Forwarded-Proto: https\r\n");
    reveal_strlit("X-Forwarded-Proto: http\r\n");
    reveal_strlit("X-Forwarded-Proto: ");
    reveal_strlit("https");
    reveal_strlit("http");
    reveal_strlit("\r\n");
    assert("X-Forwarded-Proto: https\r\n"@ =~= "X-Forwarded-Proto: "@ + "https"@ + "\r\n"@);
    assert("X-Forwarded-Proto: http\r\n"@ =~= "X-Forwarded-Proto: "@ + "http"@ + "\r\n"@);
}

proof fn host_line()
    ensures
        "\r\nX-Forwarded-Host: "@ == "\r\n"@ + "X-Forwarded-Host: "@,
{
    reveal_strlit("\r\nX-Forwarded-Host: ");
    reveal_strlit("X-Forwarded-Host: ");
    reveal_strlit("\r\n");
    assert("\r\nX-Forwarded-Host: "@ =~= "\r\n"@ + "X-Forwarded-Host: "@);
}

proof fn hops_line()
    ensures
        "\r\nx-portless-hops: "@ == "\r\n"@ + "x-portless-hops: "@,
{
    reveal_strlit("\r\nx-portless-hops: ");
    reveal_strlit("x-portless-hops: ");
    reveal_strlit("\r\n");
    assert("\r\nx-portless-hops: "@ =~= "\r\n"@ + "x-portless-hops: "@);
}

/// Lines written one after the other, line by line.
proof fn regrouped(
    a: Seq<char>,
    b: Seq<char>,
    c: Seq<char>,
    end: Seq<char>,
    d: Seq<char>,
    e: Seq<char>,
    f: Seq<char>,
    g: Seq<char>,
)
    ensures
        (a + b) + c + (end + d) + e + (end + f) + g + end == a + (b + c + end) + (d + e + end) + (f
            + g + end),
{
    assert((a + b) + c + (end + d) + e + (end + f) + g + end =~= a + (b + c + end) + (d + e + end)
        + (f + g + end));
}

/// Each of four texts stands in all of them, one behind the other.
proof fn four_stand(a: Seq<char>, b: Seq<char>, c: Seq<char>, d: Seq<char>)
    ensures
        occurs(a + b + c + d, a),
        occurs(a + b + c + d, b),
        occurs(a + b + c + d, c),
        occurs(a + b + c + d, d),
{
    let e = Seq::<char>::empty();
    let s = a + b + c + d;
    assert(s =~= e + a + (b + c + d));
    assert(s =~= a + b + (c + d));
    assert(s =~= (a + b + c) + d + e);
    stands(e, a, b + c + d);
    stands(a, b, c + d);
    stands(a + b, c, d);
    stands(a + b + c, d, e);
}

/// A response says its status, what its body is and how many bytes it has, and ends with
/// the body.
#[verifier::rlimit(40)]
pub proof fn response_told(status: u16, kind: Seq<char>, body: Seq<char>)
    ensures
        occurs(response(status, kind, body), "HTTP/1.1 "@ + dec(status as nat) + " "@),
        occurs(response(status, kind, body), "\r\nContent-Type: "@ + kind + "\r\n"@),
        occurs(
            response(status, kind, body),
            "Content-Length: "@ + dec(encode_utf8(body).len()) + "\r\n"@,
        ),
        response(status, kind, body).len() >= body.len(),
        response(status, kind, body).skip(response(status, kind, body).len() - body.len()) == body,
        reason_of(404) == "Not Found"@,
        reason_of(400) == "Bad Request"@,
        reason_of(502) == "Bad Gateway"@,
        reason_of(508) == "Loop Detected"@,
        reason_of(200) == "OK"@,
{
    let s = response(status, kind, body);
    let e = Seq::<char>::empty();
    reveal_strlit("\r\nContent-Length: ");
    reveal_strlit("\r\n");
    reveal_strlit("Content-Length: ");
    reveal_strlit("\r\nX-Portless: 1\r\nConnection: close\r\n\r\n");
    reveal_strlit("X-Portless: 1\r\nConnection: close\r\n\r\n");
    let first = "HTTP/1.1 "@ + dec(status as nat) + " "@;
    let why = reason_of(status);
    let what = "\r\nContent-Type: "@ + kind + "\r\n"@;
    let len = "Content-Length: "@ + dec(encode_utf8(body).len()) + "\r\n"@;
    let end = "X-Portless: 1\r\nConnection: close\r\n\r\n"@;
    assert("\r\nContent-Length: "@ =~= "\r\n"@ + "Content-Length: "@);
    assert("\r\nX-Portless: 1\r\nConnection: close\r\n\r\n"@ =~= "\r\n"@ + end);
    assert(s =~= first + why + what + len + end + body);
    assert(s =~= e + first + (why + what + len + end + body));
    assert(s =~= (first + why) + what + (len + end + body));
    assert(s =~= (first + why + what) + len + (end + body));
    stands(e, first, why + what + len + end + body);
    stands(first + why, what, len + end + body);
    stands(first + why + what, len, end + body);
    assert(s.skip(s.len() - body.len()) =~= body);
}

proof fn replaced_apart(a: Seq<char>, b: Seq<char>, c: char, with: Seq<char>)
    ensures
        replaced(a + b, c, with) == replaced(a, c, with) + replaced(b, c, with),
    decreases b.len(),
{
    if b.len() > 0 {
        assert((a + b).drop_last() =~= a + b.drop_last());
        assert((a + b).last() == b.last());
        replaced_apart(a, b.drop_last(), c, with);
        assert(replaced(a + b, c, with) =~= replaced(a, c, with) + replaced(b, c, with));
    } else {
        assert(a + b =~= a);
        assert(replaced(a, c, with) + replaced(b, c, with) =~= replaced(a, c, with));
    }
}

/// Escaping goes sign by sign: each sign that means something to HTML becomes its name, and
/// every other one stays.
#[verifier::rlimit(40)]
pub proof fn escapes_told(a: Seq<char>, b: Seq<char>, c: char)
    ensures
        escaped(a + b) == escaped(a) + escaped(b),
        escaped(seq!['&']) == "&amp;"@,
        escaped(seq!['<']) == "&lt;"@,
        escaped(seq!['>']) == "&gt;"@,
        escaped(seq!['"']) == "&quot;"@,
        c != '&' && c != '<' && c != '>' && c != '"' ==> escaped(seq![c]) == seq![c],
{
    reveal_strlit("&amp;");
    reveal_strlit("&lt;");
    reveal_strlit("&gt;");
    reveal_strlit("&quot;");
    replaced_apart(a, b, '&', "&amp;"@);
    let a1 = replaced(a, '&', "&amp;"@);
    let b1 = replaced(b, '&', "&amp;"@);
    replaced_apart(a1, b1, '<', "&lt;"@);
    let a2 = replaced(a1, '<', "&lt;"@);
    let b2 = replaced(b1, '<', "&lt;"@);
    replaced_apart(a2, b2, '>', "&gt;"@);
    let a3 = replaced(a2, '>', "&gt;"@);
    let b3 = replaced(b2, '>', "&gt;"@);
    replaced_apart(a3, b3, '"', "&quot;"@);
    one_replaced('&', '&', "&amp;"@);
    one_replaced('<', '&', "&amp;"@);
    one_replaced('>', '&', "&amp;"@);
    one_replaced('"', '&', "&amp;"@);
    one_replaced(c, '&', "&amp;"@);
    one_replaced('<', '<', "&lt;"@);
    one_replaced('>', '<', "&lt;"@);
    one_replaced('"', '<', "&lt;"@);
    one_replaced(c, '<', "&lt;"@);
    one_replaced('>', '>', "&gt;"@);
    one_replaced('"', '>', "&gt;"@);
    one_replaced(c, '>', "&gt;"@);
    one_replaced('"', '"', "&quot;"@);
    one_replaced(c, '"', "&quot;"@);
    unchanged("&amp;"@, '<', "&lt;"@);
    unchanged("&amp;"@, '>', "&gt;"@);
    unchanged("&amp;"@, '"', "&quot;"@);
    unchanged("&lt;"@, '>', "&gt;"@);
    unchanged("&lt;"@, '"', "&quot;"@);
    unchanged("&gt;"@, '"', "&quot;"@);
}

proof fn one_replaced(x: char, c: char, with: Seq<char>)
    ensures
        x == c ==> replaced(seq![x], c, with) == with,
        x != c ==> replaced(seq![x], c, with) == seq![x],
{
    let e = Seq::<char>::empty();
    assert(seq![x].drop_last() =~= e);
    assert(seq![x].last() == x);
    assert(replaced(e, c, with) =~= e);
    assert(e + with =~= with);
    assert(e.push(x) =~= seq![x]);
}

proof fn unchanged(s: Seq<char>, c: char, with: Seq<char>)
    requires
        lacks(s, c),
    ensures
        replaced(s, c, with) == s,
{
    crate::engine::ignore_laws::nothing_replaced(s, c, with);
}

/// A page for a host that is not known lists every route with its link, in order.
#[verifier::rlimit(40)]
pub proof fn routes_listed(a: Seq<(Seq<char>, u16)>, r: (Seq<char>, u16), port: u16, host: Seq<char>)
    ensures
        app_items(a.push(r), port) == app_items(a, port) + app_item(r, port),
        app_items(Seq::empty(), port).len() == 0,
        occurs(app_item(r, port), "<a href=\""@ + url(r.0, port, false) + "\">"@ + escaped(r.0)),
        occurs(app_item(r, port), "127.0.0.1:"@ + dec(r.1 as nat)),
        occurs(not_found(host, a, port), escaped(host)),
        a.len() > 0 ==> occurs(not_found(host, a, port), app_items(a, port)),
{
    assert(a.push(r).drop_last() =~= a);
    let s = app_item(r, port);
    reveal_strlit("<li><a href=\"");
    reveal_strlit("<li>");
    reveal_strlit("<a href=\"");
    reveal_strlit("</a> \u{2192} <code>127.0.0.1:");
    reveal_strlit("</a> \u{2192} <code>");
    reveal_strlit("127.0.0.1:");
    assert("<li><a href=\""@ =~= "<li>"@ + "<a href=\""@);
    let link = "<a href=\""@ + url(r.0, port, false) + "\">"@ + escaped(r.0);
    let number = dec(r.1 as nat);
    assert("</a> \u{2192} <code>127.0.0.1:"@ =~= "</a> \u{2192} <code>"@ + "127.0.0.1:"@);
    let rest = "</a> \u{2192} <code>127.0.0.1:"@ + number + "</code></li>"@;
    assert(s =~= "<li>"@ + link + rest);
    stands("<li>"@, link, rest);
    let at = "127.0.0.1:"@ + number;
    assert(s =~= ("<li>"@ + link + "</a> \u{2192} <code>"@) + at + "</code></li>"@);
    stands("<li>"@ + link + "</a> \u{2192} <code>"@, at, "</code></li>"@);
    let head = "<h1>404 Not Found</h1><p>No app registered for <strong>"@;
    let page = not_found(host, a, port);
    let tail = if a.len() == 0 {
        "<p>No apps registered.</p>"@
    } else {
        "<p>Active apps:</p><ul>"@ + app_items(a, port) + "</ul>"@
    };
    assert(page =~= head + escaped(host) + ("</strong></p>"@ + tail));
    stands(head, escaped(host), "</strong></p>"@ + tail);
    if a.len() > 0 {
        let front = head + escaped(host) + "</strong></p>"@ + "<p>Active apps:</p><ul>"@;
        assert(page =~= front + app_items(a, port) + "</ul>"@);
        stands(front, app_items(a, port), "</ul>"@);
    }
}

/// A probe runs its command, opens its connection, or asks for its path over HTTP; one that
/// speaks TLS only connects, and one without a command fails.
pub proof fn probes_planned(action: ResolvedProbe, p: ProbePlan)
    requires
        planned(action, p),
    ensures
        action matches ResolvedProbe::Exec { command } ==> (if command@.len() == 0 {
            p is Fail
        } else {
            p is Run && texts(p->Run_0@) == texts(command@)
        }),
        action matches ResolvedProbe::Tcp { host, port } ==> p is Connect && p->Connect_host@
            == host@ && p->Connect_port == port,
        action matches ResolvedProbe::Http { host, port, scheme, path } ==> {
            &&& lowercase(scheme@) == "https"@ ==> p is Connect && p->Connect_host@ == host@
                && p->Connect_port == port
            &&& lowercase(scheme@) != "https"@ ==> p is Get && p->Get_host@ == host@ && p->Get_port
                == port && p->path@ == (if path@.len() == 0 {
                "/"@
            } else {
                path@
            })
        },
        p matches ProbePlan::Get { host, port, path, request } ==> request@ == "GET "@ + path@
            + " HTTP/1.1\r\nHost: "@ + host@ + ":"@ + dec(port as nat)
            + "\r\nUser-Agent: starling-probe\r\nConnection: close\r\n\r\n"@,
{
}

/// A port is reserved in the engine's own proxy as it is preferred, where nobody has it and
/// it is free; else the first offer that nobody has stands in, as a conflict where one was
/// preferred.
pub proof fn local_port_told(
    leased: Set<u16>,
    port: u16,
    other: u16,
    offers: Seq<Option<u16>>,
    i: int,
)
    ensures
        !leased.contains(port) ==> local_reservation(leased, Some(port), true, offers) == Some(
            PortReservation { port, preferred: Some(port), conflict: false },
        ),
        0 <= i < offers.len() && i < 50 && offers[i] == Some(other) && !leased.contains(other) && (
        forall|j: int|
            0 <= j < i ==> (#[trigger] offers[j]) is None || leased.contains(offers[j]->0)) ==> {
            &&& local_reservation(leased, Some(port), false, offers) == Some(
                PortReservation { port: other, preferred: Some(port), conflict: true },
            )
            &&& leased.contains(port) ==> local_reservation(leased, Some(port), true, offers)
                == Some(PortReservation { port: other, preferred: Some(port), conflict: true })
            &&& local_reservation(leased, None, true, offers) == Some(
                PortReservation { port: other, preferred: None, conflict: false },
            )
        },
{
    if 0 <= i < offers.len() && i < 50 && offers[i] == Some(other) && !leased.contains(other)
        && forall|j: int|
        0 <= j < i ==> (#[trigger] offers[j]) is None || leased.contains(offers[j]->0) {
        unclaimed_found(leased, offers, other, i, 0);
    }
}

proof fn unclaimed_found(
    leased: Set<u16>,
    offers: Seq<Option<u16>>,
    port: u16,
    i: int,
    from: int,
)
    requires
        0 <= from <= i < offers.len(),
        i < 50,
        offers[i] == Some(port),
        !leased.contains(port),
        forall|j: int|
            0 <= j < i ==> (#[trigger] offers[j]) is None || leased.contains(offers[j]->0),
    ensures
        first_unclaimed(leased, offers, from) == Some(port),
    decreases i - from,
{
    if from < i {
        assert(offers[from] is None || leased.contains(offers[from]->0));
        unclaimed_found(leased, offers, port, i, from + 1);
    }
}

/// A port stays claimed as long as a route leads to it, and is given back when none does.
pub proof fn claim_ends(leased: Set<u16>, routes: Seq<(Seq<char>, u16)>, port: u16, other: u16)
    ensures
        released(leased, routes, None) == leased,
        (exists|i: int| 0 <= i < routes.len() && (#[trigger] routes[i]).1 == port) ==> released(
            leased,
            routes,
            Some(port),
        ) == leased,
        (forall|i: int| 0 <= i < routes.len() ==> (#[trigger] routes[i]).1 != port) ==> !released(
            leased,
            routes,
            Some(port),
        ).contains(port),
        other != port ==> (released(leased, routes, Some(port)).contains(other)
            <==> leased.contains(other)),
{
}

/// The first line of what was read is what stands before its first end of a line, and the
/// last what stands behind its last, without white space around it.
pub proof fn ends_of_output(a: Seq<char>, b: Seq<char>, left: Seq<char>, right: Seq<char>)
    requires
        lacks(a, '\n'),
        a.len() == 0 || a.last() != '\r',
        snug(b),
        blank(left),
        blank(right),
        lacks(left + b + right, '\n'),
    ensures
        crate::probe::first_line(a + "\n"@ + (left + b + right)) == a,
        crate::probe::last_line(a + "\n"@ + (left + b + right)) == b,
        crate::probe::first_line(Seq::empty()).len() == 0,
        crate::probe::last_line(Seq::empty()).len() == 0,
{
    let c = left + b + right;
    lines_told(a, c);
    lines_told(c, Seq::empty());
    let l = seq![a] + lines(c);
    assert(l[0] == a);
    assert(l.last() == c);
    trims_around(left, b, right);
    crate::text_laws::trims_blank(Seq::empty());
}

} // verus!
