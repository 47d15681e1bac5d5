//! Which port a server says that it listens on, whatever else it prints.

use vstd::prelude::*;
use vstd::string::*;

use crate::engine::ports::{digits_end, listen_port, port_after, port_at};
use crate::text::{
    all_digits, dec, dec_is_digits, find_from, find_is_first, is_digit, is_upper, lower, lowercase,
    matches_at, occurs, parsed_dec,
};
use crate::text_laws::lacks;

verus! {

/// Lower case, part by part.
proof fn lower_parts(a: Seq<char>, p: Seq<char>, n: nat, t: Seq<char>)
    requires
        forall|i: int| 0 <= i < p.len() ==> !is_upper(#[trigger] p[i]),
    ensures
        lowercase(a + p + dec(n) + t) == lowercase(a) + p + dec(n) + lowercase(t),
{
    dec_is_digits(n);
    let d = dec(n);
    assert forall|i: int| 0 <= i < d.len() implies lower(#[trigger] d[i]) == d[i] by {
        assert(is_digit(d[i]));
    }
    assert(lowercase(a + p + d + t) =~= lowercase(a) + p + d + lowercase(t));
}

/// Lower case adds no colon and no digit.
proof fn lower_adds_none(a: Seq<char>)
    requires
        lacks(a, ':'),
    ensures
        lacks(lowercase(a), ':'),
        a.len() > 0 && !is_digit(a[0]) ==> !is_digit(lowercase(a)[0]),
{
    let l = lowercase(a);
    assert forall|i: int| 0 <= i < l.len() implies #[trigger] l[i] != ':' by {
        let c = a[i];
        if is_upper(c) {
            assert(lower(c) as int == c as int + 32);
        }
    }
    if a.len() > 0 && is_upper(a[0]) {
        assert(lower(a[0]) as int == a[0] as int + 32);
    }
}

proof fn digits_stop(a: Seq<char>, d: Seq<char>, t: Seq<char>, k: int)
    requires
        all_digits(d),
        t.len() == 0 || !is_digit(t[0]),
        0 <= k <= d.len(),
    ensures
        digits_end(a + d + t, a.len() + k) == a.len() + d.len(),
    decreases d.len() - k,
{
    let s = a + d + t;
    if k < d.len() {
        assert(s[a.len() + k] == d[k]);
        assert(is_digit(d[k]));
        digits_stop(a, d, t, k + 1);
    } else if t.len() > 0 {
        assert(s[a.len() + k] == t[0]);
    }
}

/// The port behind a text that stands at one place alone.
proof fn port_found(a: Seq<char>, p: Seq<char>, n: u16, t: Seq<char>)
    requires
        n > 0,
        p.len() > 0,
        t.len() == 0 || !is_digit(t[0]),
        forall|k: int| matches_at(a + p + dec(n as nat) + t, p, k) ==> k == a.len(),
    ensures
        port_after(a + p + dec(n as nat) + t, p, 0) == Some(n),
{
    let d = dec(n as nat);
    let s = a + p + d + t;
    dec_is_digits(n as nat);
    parsed_dec(n as nat, 65535);
    find_is_first(s, p, 0);
    assert(s.subrange(a.len() as int, (a.len() + p.len()) as int) =~= p);
    assert(matches_at(s, p, a.len() as int));
    assert(find_from(s, p, 0) == Some(a.len() as int));
    digits_stop(a + p, d, t, 0);
    let start = (a.len() + p.len()) as int;
    assert(s.subrange(start, start + d.len()) =~= d);
    assert(port_at(s, start) == Some(n));
}

/// No port behind a text that does not stand anywhere.
proof fn no_port(s: Seq<char>, p: Seq<char>)
    requires
        forall|k: int| !matches_at(s, p, k),
    ensures
        port_after(s, p, 0) is None,
{
    find_is_first(s, p, 0);
}

/// Whether a text has colons at two places, so far apart, and nowhere else.
spec fn colons_at(s: Seq<char>, x: int, y: int) -> bool {
    forall|i: int| 0 <= i < s.len() && #[trigger] s[i] == ':' ==> i == x || i == y
}

/// A URL stands where its colons do.
proof fn url_at(s: Seq<char>, q: Seq<char>, m: int, x: int, k: int)
    requires
        colons_at(s, x, x + 12),
        0 <= m,
        q.len() == m + 13,
        q[m] == ':',
        q[m + 12] == ':',
        matches_at(s, q, k),
    ensures
        k == x - m,
{
    let w = s.subrange(k, k + q.len());
    assert(w[m] == s[k + m]);
    assert(w[m + 12] == s[k + m + 12]);
}

/// A URL does not stand where one of its letters does not.
proof fn url_not_at(s: Seq<char>, q: Seq<char>, k: int, j: int)
    requires
        0 <= j < q.len(),
        0 <= k,
        k + q.len() <= s.len() ==> s[k + j] != q[j],
    ensures
        !matches_at(s, q, k),
{
    if matches_at(s, q, k) {
        assert(s.subrange(k, k + q.len())[j] == s[k + j]);
    }
}

/// A line with one URL has its colons.
proof fn url_colons(a: Seq<char>, p: Seq<char>, m: int, n: u16, t: Seq<char>)
    requires
        lacks(a, ':'),
        lacks(t, ':'),
        0 <= m,
        p.len() == m + 13,
        forall|i: int| 0 <= i < p.len() && #[trigger] p[i] == ':' ==> i == m || i == m + 12,
    ensures
        colons_at(a + p + dec(n as nat) + t, a.len() + m, a.len() + m + 12),
{
    let d = dec(n as nat);
    let s = a + p + d + t;
    dec_is_digits(n as nat);
    assert forall|i: int| 0 <= i < s.len() && #[trigger] s[i] == ':' implies i == a.len() + m || i
        == a.len() + m + 12 by {
        if i < a.len() {
            assert(s[i] == a[i]);
        } else if i < a.len() + p.len() {
            assert(s[i] == p[i - a.len()]);
        } else if i < a.len() + p.len() + d.len() {
            assert(s[i] == d[i - a.len() - p.len()]);
            assert(is_digit(d[i - a.len() - p.len()]));
        } else {
            assert(s[i] == t[i - a.len() - p.len() - d.len()]);
        }
    }
}

/// Whether a text is the start of a URL, with its first colon at an index and the first
/// letter of its host.
spec fn is_url(p: Seq<char>, m: int, c: char) -> bool {
    &&& p.len() == m + 13
    &&& p[0] == 'h' && p[1] == 't' && p[m] == ':' && p[m + 12] == ':' && p[m + 3] == c
    &&& forall|i: int| 0 <= i < p.len() && #[trigger] p[i] == ':' ==> i == m || i == m + 12
    &&& forall|i: int| 0 <= i < p.len() ==> !is_upper(#[trigger] p[i])
}

proof fn plain_number()
    ensures
        is_url("http://127.0.0.1:"@, 4, '1'),
{
    reveal_strlit("http://127.0.0.1:");
}

proof fn plain_name()
    ensures
        is_url("http://localhost:"@, 4, 'l'),
{
    reveal_strlit("http://localhost:");
}

proof fn secure_number()
    ensures
        is_url("https://127.0.0.1:"@, 5, '1'),
{
    reveal_strlit("https://127.0.0.1:");
}

proof fn secure_name()
    ensures
        is_url("https://localhost:"@, 5, 'l'),
{
    reveal_strlit("https://localhost:");
}

/// The port of a URL, and none of another.
proof fn url_heard(p: Seq<char>, m: int, c: char, lead: Seq<char>, n: u16, tail: Seq<char>)
    requires
        is_url(p, m, c),
        m == 4 || m == 5,
        n > 0,
        lacks(lead, ':'),
        lacks(tail, ':'),
        tail.len() == 0 || !is_digit(tail[0]),
    ensures
        port_after(lowercase(lead + p + dec(n as nat) + tail), p, 0) == Some(n),
        forall|q: Seq<char>, mq: int, cq: char| #[trigger]
            is_url(q, mq, cq) && (mq == 4 || mq == 5) && mq <= m && (mq == m ==> c != cq)
                ==> port_after(lowercase(lead + p + dec(n as nat) + tail), q, 0) is None,
{
    lower_parts(lead, p, n as nat, tail);
    lower_adds_none(lead);
    lower_adds_none(tail);
    let a = lowercase(lead);
    let t = lowercase(tail);
    let s = a + p + dec(n as nat) + t;
    url_colons(a, p, m, n, t);
    let x = a.len() + m;
    assert forall|k: int| matches_at(s, p, k) implies k == a.len() by {
        url_at(s, p, m, x, k);
    }
    port_found(a, p, n, t);
    assert forall|q: Seq<char>, mq: int, cq: char| #[trigger]
        is_url(q, mq, cq) && (mq == 4 || mq == 5) && mq <= m && (mq == m ==> c != cq) implies
        port_after(s, q, 0) is None by {
        other_url(a, p, m, n, t, q, mq);
        no_port(s, q);
    }
}

/// A URL of a local server, wherever it stands in a line, gives its port.
pub proof fn local_url_heard(prefix: Seq<char>, lead: Seq<char>, n: u16, tail: Seq<char>)
    requires
        prefix == "http://127.0.0.1:"@ || prefix == "http://localhost:"@ || prefix
            == "https://127.0.0.1:"@ || prefix == "https://localhost:"@,
        n > 0,
        lacks(lead, ':'),
        lacks(tail, ':'),
        tail.len() == 0 || !is_digit(tail[0]),
    ensures
        listen_port(lead + prefix + dec(n as nat) + tail) == Some(n),
{
    plain_number();
    plain_name();
    secure_number();
    secure_name();
    if prefix == "http://127.0.0.1:"@ {
        url_heard(prefix, 4, '1', lead, n, tail);
    } else if prefix == "http://localhost:"@ {
        url_heard(prefix, 4, 'l', lead, n, tail);
    } else if prefix == "https://127.0.0.1:"@ {
        url_heard(prefix, 5, '1', lead, n, tail);
    } else {
        url_heard(prefix, 5, 'l', lead, n, tail);
    }
}

/// A line with one URL has no other.
proof fn other_url(
    a: Seq<char>,
    p: Seq<char>,
    m: int,
    n: u16,
    t: Seq<char>,
    q: Seq<char>,
    mq: int,
)
    requires
        colons_at(a + p + dec(n as nat) + t, a.len() + m, a.len() + m + 12),
        m == 4 || m == 5,
        mq == 4 || mq == 5,
        mq <= m,
        p.len() == m + 13,
        q.len() == mq + 13,
        q[mq] == ':',
        q[mq + 12] == ':',
        p[0] == 'h',
        p[1] == 't',
        q[0] == 'h',
        m == mq ==> p[m + 3] != q[m + 3],
    ensures
        forall|k: int| !matches_at(a + p + dec(n as nat) + t, q, k),
{
    let s = a + p + dec(n as nat) + t;
    assert forall|k: int| !matches_at(s, q, k) by {
        if matches_at(s, q, k) {
            url_at(s, q, mq, a.len() + m, k);
            if m == mq {
                assert(s[a.len() + m + 3] == p[m + 3]);
                url_not_at(s, q, k, m + 3);
            } else {
                assert(s[(a.len() + 1) as int] == p[1]);
                url_not_at(s, q, k, 0);
            }
        }
    }
}

/// A local address gives its port where the line speaks of a server that listens, and none
/// where it does not.
#[verifier::rlimit(40)]
pub proof fn local_address_heard(prefix: Seq<char>, lead: Seq<char>, n: u16, tail: Seq<char>)
    requires
        prefix == "127.0.0.1:"@ || prefix == "localhost:"@,
        n > 0,
        lacks(lead, ':'),
        lacks(tail, ':'),
        tail.len() == 0 || !is_digit(tail[0]),
    ensures
        ({
            let line = lead + prefix + dec(n as nat) + tail;
            let s = lowercase(line);
            &&& occurs(s, "listen"@) || occurs(s, "serving"@) || occurs(s, "running"@) || occurs(
                s,
                "ready"@,
            ) || occurs(s, "local:"@) || occurs(s, "started"@) ==> listen_port(line) == Some(n)
            &&& !occurs(s, "listen"@) && !occurs(s, "serving"@) && !occurs(s, "running"@)
                && !occurs(s, "ready"@) && !occurs(s, "local:"@) && !occurs(s, "started"@)
                ==> listen_port(line) is None
        }),
{
    reveal_strlit("http://127.0.0.1:");
    reveal_strlit("http://localhost:");
    reveal_strlit("https://127.0.0.1:");
    reveal_strlit("https://localhost:");
    reveal_strlit("127.0.0.1:");
    reveal_strlit("localhost:");
    lower_parts(lead, prefix, n as nat, tail);
    lower_adds_none(lead);
    lower_adds_none(tail);
    let a = lowercase(lead);
    let t = lowercase(tail);
    let d = dec(n as nat);
    let s = a + prefix + d + t;
    dec_is_digits(n as nat);
    let x = a.len() as int + 9;
    assert forall|i: int| 0 <= i < s.len() && #[trigger] s[i] == ':' implies i == x by {
        if i < a.len() {
            assert(s[i] == a[i]);
        } else if i < a.len() + 10 {
            assert(s[i] == prefix[i - a.len()]);
        } else if i < a.len() + 10 + d.len() {
            assert(s[i] == d[i - a.len() - 10]);
            assert(is_digit(d[i - a.len() - 10]));
        } else {
            assert(s[i] == t[i - a.len() - 10 - d.len()]);
        }
    }
    two_colons(s, x, "http://127.0.0.1:"@, 4);
    two_colons(s, x, "http://localhost:"@, 4);
    two_colons(s, x, "https://127.0.0.1:"@, 5);
    two_colons(s, x, "https://localhost:"@, 5);
    assert forall|k: int| matches_at(s, prefix, k) implies k == a.len() by {
        assert(s.subrange(k, k + 10)[9] == s[k + 9]);
    }
    port_found(a, prefix, n, t);
    if prefix == "localhost:"@ {
        let q = "127.0.0.1:"@;
        assert forall|k: int| !matches_at(s, q, k) by {
            if matches_at(s, q, k) {
                assert(s.subrange(k, k + 10)[9] == s[k + 9]);
                assert(s[a.len() as int] == prefix[0]);
                url_not_at(s, q, k, 0);
            }
        }
        no_port(s, q);
    }
}

/// A text with one colon holds no URL.
proof fn two_colons(s: Seq<char>, x: int, q: Seq<char>, m: int)
    requires
        forall|i: int| 0 <= i < s.len() && #[trigger] s[i] == ':' ==> i == x,
        0 <= m,
        q.len() == m + 13,
        q[m] == ':',
        q[m + 12] == ':',
    ensures
        port_after(s, q, 0) is None,
{
    assert forall|k: int| !matches_at(s, q, k) by {
        if matches_at(s, q, k) {
            let w = s.subrange(k, k + q.len());
            assert(w[m] == s[k + m]);
            assert(w[m + 12] == s[k + m + 12]);
        }
    }
    no_port(s, q);
}

} // verus!
