//! What holds of requests that pass through the proxy, and of the pages that it answers.

use vstd::prelude::*;
use vstd::string::*;
use vstd::utf8::{decode_utf8, encode_scalar, encode_utf8};

use crate::http::{added_headers, escaped, head_of, head_of_lines, head_with, rewritten, HeadV};
use crate::text::{
    dec, dec_is_digits, ends_with, find_from, find_is_first, in_class, is_digit, is_space,
    lowercase, matches_at, parsed_dec, replaced, split, split_once, trim, trim_back, trim_front,
    Class,
};

verus! {

/// The end of a line.
pub open spec fn eol() -> Seq<char> {
    "\r\n"@
}

proof fn eol_chars()
    ensures
        eol().len() == 2,
        eol()[0] == '\r',
        eol()[1] == '\n',
{
    reveal_strlit("\r\n");
}

proof fn eol_at(s: Seq<char>, i: int)
    ensures
        matches_at(s, eol(), i) <==> 0 <= i && i + 2 <= s.len() && s[i] == '\r' && s[i + 1] == '\n',
{
    eol_chars();
    if 0 <= i && i + 2 <= s.len() {
        let w = s.subrange(i, i + 2);
        assert(w[0] == s[i] && w[1] == s[i + 1]);
        if s[i] == '\r' && s[i + 1] == '\n' {
            assert(w =~= eol());
        }
    }
}

proof fn split_first(s: Seq<char>, i: int)
    requires
        find_from(s, eol(), 0) == Some(i),
    ensures
        0 <= i && i + 2 <= s.len(),
        split(s, eol()) == seq![s.take(i)] + split(s.skip(i + 2), eol()),
{
    eol_chars();
    find_is_first(s, eol(), 0);
}

proof fn split_single(s: Seq<char>)
    requires
        find_from(s, eol(), 0) is None,
    ensures
        split(s, eol()) == seq![s],
{
}

/// Whether a line ends at index `i`.
pub open spec fn ends_at(s: Seq<char>, i: int) -> bool {
    0 <= i && i + 2 <= s.len() && s[i] == '\r' && s[i + 1] == '\n'
}

proof fn first_end(s: Seq<char>, i: int, from: int)
    requires
        0 <= from <= i,
        ends_at(s, i),
        forall|j: int| from <= j < i ==> !#[trigger] ends_at(s, j),
    ensures
        find_from(s, eol(), from) == Some(i),
    decreases i - from,
{
    eol_chars();
    eol_at(s, from);
    if from < i {
        assert(!ends_at(s, from));
        first_end(s, i, from + 1);
    }
}

proof fn found_end(s: Seq<char>, from: int)
    requires
        0 <= from,
    ensures
        match find_from(s, eol(), from) {
            Some(i) => from <= i && ends_at(s, i) && forall|j: int|
                from <= j < i ==> !#[trigger] ends_at(s, j),
            None => forall|j: int| from <= j ==> !#[trigger] ends_at(s, j),
        },
    decreases s.len() - from + 1,
{
    eol_chars();
    eol_at(s, from);
    if from + 2 <= s.len() && !ends_at(s, from) {
        found_end(s, from + 1);
    }
}

proof fn found_in_joined(a: Seq<char>, b: Seq<char>)
    ensures
        find_from(a + eol() + b, eol(), 0) == (match find_from(a, eol(), 0) {
            Some(i) => Some(i),
            None => Some(a.len() as int),
        }),
{
    let p = eol();
    let s = a + p + b;
    eol_chars();
    found_end(a, 0);
    let n = a.len() as int;
    assert(s[n] == p[0] && s[n + 1] == p[1]);
    assert forall|j: int| 0 <= j < n implies #[trigger] ends_at(s, j) == ends_at(a, j) by {
        if j + 2 <= n {
            assert(s[j] == a[j] && s[j + 1] == a[j + 1]);
        } else {
            assert(s[j + 1] == p[0]);
        }
    }
    match find_from(a, p, 0) {
        Some(i) => {
            assert(ends_at(s, i));
            first_end(s, i, 0);
        },
        None => {
            assert(ends_at(s, n));
            first_end(s, n, 0);
        },
    }
}

/// The lines of two texts with an end of line between them are those of the first,
/// then those of the second.
pub proof fn lines_joined(a: Seq<char>, b: Seq<char>)
    ensures
        split(a + eol() + b, eol()) == split(a, eol()) + split(b, eol()),
        split(a, eol()).len() > 0,
    decreases a.len(),
{
    let s = a + eol() + b;
    eol_chars();
    found_in_joined(a, b);
    match find_from(a, eol(), 0) {
        Some(i) => {
            split_first(a, i);
            split_first(s, i);
            let rest = a.skip(i + 2);
            assert(s.take(i) =~= a.take(i));
            assert(s.skip(i + 2) =~= rest + eol() + b);
            lines_joined(rest, b);
            assert(seq![a.take(i)] + (split(rest, eol()) + split(b, eol())) =~= (seq![a.take(i)]
                + split(rest, eol())) + split(b, eol()));
        },
        None => {
            let n = a.len() as int;
            split_single(a);
            split_first(s, n);
            assert(s.take(n) =~= a);
            assert(s.skip(n + 2) =~= b);
        },
    }
}

/// Whether a text has no end of line in it.
pub open spec fn one_line(s: Seq<char>) -> bool {
    forall|i: int| !matches_at(s, eol(), i)
}

proof fn one_line_splits(s: Seq<char>)
    requires
        one_line(s),
    ensures
        split(s, eol()) == seq![s],
{
    find_is_first(s, eol(), 0);
}

proof fn no_return_one_line(s: Seq<char>)
    requires
        forall|i: int| 0 <= i < s.len() ==> #[trigger] s[i] != '\r',
    ensures
        one_line(s),
{
    assert forall|i: int| !matches_at(s, eol(), i) by {
        eol_at(s, i);
    }
}

/// The lines of a text have no end of line in them.
pub proof fn lines_are_lines(s: Seq<char>)
    ensures
        forall|k: int| 0 <= k < split(s, eol()).len() ==> one_line(#[trigger] split(s, eol())[k]),
    decreases s.len(),
{
    let p = eol();
    eol_chars();
    find_is_first(s, p, 0);
    let r = split(s, p);
    match find_from(s, p, 0) {
        Some(i) => {
            let q = split(s.skip(i + 2), p);
            lines_are_lines(s.skip(i + 2));
            assert(r =~= seq![s.take(i)] + q);
            assert forall|k: int| 0 <= k < r.len() implies one_line(#[trigger] r[k]) by {
                if k == 0 {
                    assert forall|j: int| !matches_at(s.take(i), p, j) by {
                        eol_at(s.take(i), j);
                        eol_at(s, j);
                    }
                } else {
                    assert(r[k] == q[k - 1]);
                }
            }
        },
        None => {},
    }
}

proof fn part_of_line(s: Seq<char>, from: int, to: int)
    requires
        one_line(s),
        0 <= from <= to <= s.len(),
    ensures
        one_line(s.subrange(from, to)),
{
    let t = s.subrange(from, to);
    assert forall|j: int| !matches_at(t, eol(), j) by {
        eol_at(t, j);
        eol_at(s, from + j);
    }
}

proof fn trim_front_part(s: Seq<char>, class: Class)
    ensures
        exists|i: int| 0 <= i <= s.len() && trim_front(s, class) == s.subrange(i, s.len() as int),
    decreases s.len(),
{
    if s.len() > 0 && in_class(s[0], class) {
        let d = s.drop_first();
        trim_front_part(d, class);
        let i = choose|i: int|
            0 <= i <= d.len() && trim_front(d, class) == d.subrange(i, d.len() as int);
        assert(d.subrange(i, d.len() as int) =~= s.subrange(i + 1, s.len() as int));
    } else {
        assert(s.subrange(0, s.len() as int) =~= s);
    }
}

proof fn trim_back_part(s: Seq<char>, class: Class)
    ensures
        exists|i: int| 0 <= i <= s.len() && trim_back(s, class) == s.subrange(0, i),
    decreases s.len(),
{
    if s.len() > 0 && in_class(s.last(), class) {
        let d = s.drop_last();
        trim_back_part(d, class);
        let i = choose|i: int| 0 <= i <= d.len() && trim_back(d, class) == d.subrange(0, i);
        assert(d.subrange(0, i) =~= s.subrange(0, i));
    } else {
        assert(s.subrange(0, s.len() as int) =~= s);
    }
}

proof fn trimmed_line(s: Seq<char>)
    requires
        one_line(s),
    ensures
        one_line(trim(s)),
{
    let f = trim_front(s, Class::Space);
    trim_front_part(s, Class::Space);
    let i = choose|i: int| 0 <= i <= s.len() && f == s.subrange(i, s.len() as int);
    part_of_line(s, i, s.len() as int);
    trim_back_part(f, Class::Space);
    let j = choose|j: int| 0 <= j <= f.len() && trim_back(f, Class::Space) == f.subrange(0, j);
    part_of_line(f, 0, j);
    trim_back_part(s, Class::Space);
    let k = choose|k: int| 0 <= k <= s.len() && trim_back(s, Class::Space) == s.subrange(0, k);
    part_of_line(s, 0, k);
    let b = trim_back(s, Class::Space);
    trim_front_part(b, Class::Space);
    let n = choose|n: int|
        0 <= n <= b.len() && trim_front(b, Class::Space) == b.subrange(n, b.len() as int);
    part_of_line(b, n, b.len() as int);
}

/// The host that header lines name has no end of line in it.
proof fn host_is_line(lines: Seq<Seq<char>>)
    requires
        forall|k: int| 0 <= k < lines.len() ==> one_line(#[trigger] lines[k]),
    ensures
        one_line(head_of_lines(lines).host),
    decreases lines.len(),
{
    if lines.len() == 0 {
        no_return_one_line(Seq::empty());
    } else {
        let d = lines.drop_last();
        let l = lines.last();
        assert forall|k: int| 0 <= k < d.len() implies one_line(#[trigger] d[k]) by {
            assert(d[k] == lines[k]);
        }
        host_is_line(d);
        assert(one_line(lines[lines.len() - 1]));
        match split_once(l, ":"@) {
            None => {},
            Some((k, v)) => {
                find_is_first(l, ":"@, 0);
                reveal_strlit(":");
                let i = find_from(l, ":"@, 0)->0;
                assert(v =~= l.subrange(i + 1, l.len() as int));
                part_of_line(l, i + 1, l.len() as int);
                let val = trim(v);
                trimmed_line(v);
                find_is_first(val, ":"@, 0);
                match find_from(val, ":"@, 0) {
                    Some(j) => {
                        assert(split(val, ":"@)[0] == val.take(j));
                        assert(val.take(j) =~= val.subrange(0, j));
                        part_of_line(val, 0, j);
                    },
                    None => {
                        assert(split(val, ":"@)[0] == val);
                    },
                }
            },
        }
    }
}

/// A header line of a key without a colon, and a value.
proof fn header_cut(k: Seq<char>, v: Seq<char>)
    requires
        forall|i: int| 0 <= i < k.len() ==> #[trigger] k[i] != ':',
    ensures
        split_once(k + ":"@ + v, ":"@) == Some((k, v)),
{
    reveal_strlit(":");
    let s = k + ":"@ + v;
    find_is_first(s, ":"@, 0);
    assert forall|j: int| 0 <= j < k.len() implies !matches_at(s, ":"@, j) by {
        assert(s.subrange(j, j + 1)[0] == k[j]);
    }
    assert(s.subrange(k.len() as int, k.len() as int + 1) =~= ":"@);
    assert(matches_at(s, ":"@, k.len() as int));
    assert(s.take(k.len() as int) =~= k);
    assert(s.skip(k.len() as int + 1) =~= v);
}

proof fn nothing_to_trim(s: Seq<char>)
    requires
        s.len() > 0,
        !is_space(s[0]),
        !is_space(s.last()),
    ensures
        trim(s) == s,
{
}

/// A header of another key adds nothing to what the head says.
proof fn other_header(h: HeadV, k: Seq<char>, v: Seq<char>)
    requires
        k.len() > 2,
        forall|i: int| 0 <= i < k.len() ==> #[trigger] k[i] != ':',
        !is_space(k[0]),
        !is_space(k.last()),
        k[0] == 'X',
        k[2] == 'F',
    ensures
        head_with(h, k + ":"@ + v) == h,
{
    header_cut(k, v);
    nothing_to_trim(k);
    let key = lowercase(k);
    assert(key[0] == 'x' && key[2] == 'f');
    reveal_strlit("host");
    reveal_strlit("x-portless-hops");
    reveal_strlit("upgrade");
    assert("host"@[0] == 'h');
    assert("x-portless-hops"@[2] == 'p');
    assert("upgrade"@[0] == 'u');
}

/// The header that counts the hops sets their number.
proof fn hops_header(h: HeadV, n: nat)
    requires
        n <= u32::MAX,
    ensures
        head_with(h, "x-portless-hops"@ + ":"@ + (" "@ + dec(n))) == (HeadV {
            hops: n as u32,
            ..h
        }),
{
    let k = "x-portless-hops"@;
    let v = " "@ + dec(n);
    reveal_strlit("x-portless-hops");
    reveal_strlit(" ");
    reveal_strlit("host");
    header_cut(k, v);
    nothing_to_trim(k);
    let key = lowercase(k);
    assert(key =~= k);
    assert("host"@[0] == 'h' && k[0] == 'x');
    dec_is_digits(n);
    let d = dec(n);
    assert(is_digit(d[0]));
    assert(is_digit(d[d.len() - 1]));
    nothing_to_trim(d);
    assert(v.drop_first() =~= d);
    assert(v[0] == ' ');
    assert(v.last() == d.last());
    assert(trim(v) == d) by {
        assert(trim_front(v, Class::Space) == trim_front(d, Class::Space));
    }
    parsed_dec(n, u32::MAX as nat);
}

/// A line without a colon adds nothing to what the head says.
proof fn empty_line(h: HeadV)
    ensures
        head_with(h, Seq::empty()) == h,
{
    reveal_strlit(":");
    find_is_first(Seq::<char>::empty(), ":"@, 0);
}

/// The text of a head with the headers that the proxy adds, before the blank line.
pub open spec fn forwarded(text: Seq<char>, tls: bool) -> Seq<char> {
    text.take(text.len() - 2) + added_headers(head_of(text), tls) + eol()
}

/// Whether a text ends as a head does.
pub open spec fn is_head(text: Seq<char>) -> bool {
    ends_with(text, "\r\n\r\n"@)
}

proof fn fold_appended(lines: Seq<Seq<char>>, l: Seq<char>)
    ensures
        head_of_lines(lines.push(l)) == head_with(head_of_lines(lines), l),
{
    assert(lines.push(l).drop_last() =~= lines);
}

proof fn head_parts(text: Seq<char>)
    requires
        is_head(text),
    ensures
        text.len() >= 4,
        text == text.take(text.len() - 4) + eol() + eol(),
        text.take(text.len() - 2) == text.take(text.len() - 4) + eol(),
{
    reveal_strlit("\r\n\r\n");
    eol_chars();
    let e = text.subrange(text.len() - 4, text.len() as int);
    assert(e =~= "\r\n\r\n"@);
    assert forall|i: int| text.len() - 4 <= i < text.len() implies text[i] == "\r\n\r\n"@[i - (
    text.len() - 4)] by {
        assert(e[i - (text.len() - 4)] == text[i]);
    }
    assert(text =~= text.take(text.len() - 4) + eol() + eol());
    assert(text.take(text.len() - 2) =~= text.take(text.len() - 4) + eol());
}

/// The headers that the proxy adds, line by line.
proof fn added_lines(h: HeadV, tls: bool)
    requires
        one_line(h.host),
    ensures
        ({
            let proto = if tls {
                "https"@
            } else {
                "http"@
            };
            let a = "X-Forwarded-For"@ + ":"@ + " 127.0.0.1"@;
            let b = "X-Forwarded-Proto"@ + ":"@ + (" "@ + proto);
            let c = "X-Forwarded-Host"@ + ":"@ + (" "@ + h.host);
            let d = "x-portless-hops"@ + ":"@ + (" "@ + dec((h.hops + 1) as nat));
            &&& added_headers(h, tls) == a + eol() + (b + eol() + (c + eol() + (d + eol())))
            &&& one_line(a) && one_line(b) && one_line(c) && one_line(d)
        }),
{
    let proto = if tls {
        "https"@
    } else {
        "http"@
    };
    let a = "X-Forwarded-For"@ + ":"@ + " 127.0.0.1"@;
    let b = "X-Forwarded-Proto"@ + ":"@ + (" "@ + proto);
    let c = "X-Forwarded-Host"@ + ":"@ + (" "@ + h.host);
    let d = "x-portless-hops"@ + ":"@ + (" "@ + dec((h.hops + 1) as nat));
    reveal_strlit("X-Forwarded-For: 127.0.0.1\r\nX-Forwarded-Proto: ");
    reveal_strlit("\r\nX-Forwarded-Host: ");
    reveal_strlit("\r\nx-portless-hops: ");
    reveal_strlit("X-Forwarded-For");
    reveal_strlit("X-Forwarded-Proto");
    reveal_strlit("X-Forwarded-Host");
    reveal_strlit("x-portless-hops");
    reveal_strlit(" 127.0.0.1");
    reveal_strlit(":");
    reveal_strlit(" ");
    reveal_strlit("https");
    reveal_strlit("http");
    eol_chars();
    let l1 = "X-Forwarded-For: 127.0.0.1\r\nX-Forwarded-Proto: "@;
    let l2 = "\r\nX-Forwarded-Host: "@;
    let l3 = "\r\nx-portless-hops: "@;
    assert(l1 =~= a + eol() + "X-Forwarded-Proto"@ + ":"@ + " "@);
    assert(l2 =~= eol() + "X-Forwarded-Host"@ + ":"@ + " "@);
    assert(l3 =~= eol() + "x-portless-hops"@ + ":"@ + " "@);
    assert(added_headers(h, tls) =~= a + eol() + (b + eol() + (c + eol() + (d + eol()))));
    no_return_one_line(a);
    no_return_one_line(b);
    assert forall|i: int| !matches_at(c, eol(), i) by {
        let n: int = 18;
        assert("X-Forwarded-Host"@.len() + ":"@.len() + " "@.len() == n);
        eol_at(c, i);
        if 0 <= i && i + 2 <= c.len() {
            if i < n {
                assert(c[i] != '\r');
            } else {
                assert(c[i] == h.host[i - n]);
                assert(c[i + 1] == h.host[i + 1 - n]);
                eol_at(h.host, i - n);
            }
        }
    }
    dec_is_digits((h.hops + 1) as nat);
    assert forall|i: int| 0 <= i < d.len() implies #[trigger] d[i] != '\r' by {
        let n: int = 17;
        assert("x-portless-hops"@.len() + ":"@.len() + " "@.len() == n);
        if i >= n {
            assert(d[i] == dec((h.hops + 1) as nat)[i - n]);
            assert(is_digit(dec((h.hops + 1) as nat)[i - n]));
        }
    }
    no_return_one_line(d);
}

/// The lines of a head behind the first, but for the blank line at its end.
pub open spec fn header_lines(text: Seq<char>) -> Seq<Seq<char>> {
    split(text.take(text.len() - 4), eol()).drop_first()
}

/// The blank line at the end of a head adds nothing, and the host is on one line.
proof fn head_lines(text: Seq<char>)
    requires
        is_head(text),
    ensures
        head_of(text) == head_of_lines(header_lines(text)),
        one_line(head_of(text).host),
{
    let p = eol();
    let start = text.take(text.len() - 4);
    let none = Seq::<char>::empty();
    eol_chars();
    head_parts(text);
    no_return_one_line(none);
    one_line_splits(none);
    let end = none + p + none;
    assert(text =~= start + p + end);
    lines_joined(start, end);
    lines_joined(none, none);
    let first = split(start, p);
    let rest = first.drop_first();
    assert(split(text, p) =~= first + (seq![none] + seq![none]));
    assert(split(text, p).drop_first() =~= rest.push(none).push(none));
    fold_appended(rest.push(none), none);
    fold_appended(rest, none);
    empty_line(head_of_lines(rest));
    lines_are_lines(start);
    assert forall|k: int| 0 <= k < rest.len() implies one_line(#[trigger] rest[k]) by {
        assert(rest[k] == first[k + 1]);
    }
    host_is_line(rest);
}

/// The lines of a text that is four lines behind another text, and a blank line.
proof fn four_more_lines(
    start: Seq<char>,
    a: Seq<char>,
    b: Seq<char>,
    c: Seq<char>,
    d: Seq<char>,
)
    requires
        one_line(a),
        one_line(b),
        one_line(c),
        one_line(d),
    ensures
        ({
            let p = eol();
            let none = Seq::<char>::empty();
            let t = start + p + (a + p + (b + p + (c + p + (d + p + p))));
            split(t, p).drop_first() == split(start, p).drop_first().push(a).push(b).push(c).push(
                d,
            ).push(none).push(none)
        }),
{
    let p = eol();
    let none = Seq::<char>::empty();
    eol_chars();
    no_return_one_line(none);
    one_line_splits(none);
    one_line_splits(a);
    one_line_splits(b);
    one_line_splits(c);
    one_line_splits(d);
    let t5 = none + p + none;
    let t4 = d + p + t5;
    let t3 = c + p + t4;
    let t2 = b + p + t3;
    let t1 = a + p + t2;
    assert(t5 =~= p);
    lines_joined(none, none);
    lines_joined(d, t5);
    lines_joined(c, t4);
    lines_joined(b, t3);
    lines_joined(a, t2);
    lines_joined(start, t1);
    let first = split(start, p);
    assert(split(start + p + t1, p) =~= first + (seq![a] + (seq![b] + (seq![c] + (seq![d] + (
    seq![none] + seq![none]))))));
    assert(split(start + p + t1, p).drop_first() =~= first.drop_first().push(a).push(b).push(
        c,
    ).push(d).push(none).push(none));
}

/// What the added lines add to what a head says.
proof fn added_says(rest: Seq<Seq<char>>, h: HeadV, tls: bool)
    requires
        h == head_of_lines(rest),
        h.hops < u32::MAX,
    ensures
        ({
            let proto = if tls {
                "https"@
            } else {
                "http"@
            };
            let a = "X-Forwarded-For"@ + ":"@ + " 127.0.0.1"@;
            let b = "X-Forwarded-Proto"@ + ":"@ + (" "@ + proto);
            let c = "X-Forwarded-Host"@ + ":"@ + (" "@ + h.host);
            let d = "x-portless-hops"@ + ":"@ + (" "@ + dec((h.hops + 1) as nat));
            let none = Seq::<char>::empty();
            head_of_lines(rest.push(a).push(b).push(c).push(d).push(none).push(none)) == (HeadV {
                hops: (h.hops + 1) as u32,
                ..h
            })
        }),
{
    let proto = if tls {
        "https"@
    } else {
        "http"@
    };
    let a = "X-Forwarded-For"@ + ":"@ + " 127.0.0.1"@;
    let b = "X-Forwarded-Proto"@ + ":"@ + (" "@ + proto);
    let c = "X-Forwarded-Host"@ + ":"@ + (" "@ + h.host);
    let d = "x-portless-hops"@ + ":"@ + (" "@ + dec((h.hops + 1) as nat));
    let none = Seq::<char>::empty();
    let with_a = rest.push(a);
    let with_b = with_a.push(b);
    let with_c = with_b.push(c);
    let with_d = with_c.push(d);
    let with_e = with_d.push(none);
    fold_appended(rest, a);
    fold_appended(with_a, b);
    fold_appended(with_b, c);
    fold_appended(with_c, d);
    fold_appended(with_d, none);
    fold_appended(with_e, none);
    reveal_strlit("X-Forwarded-For");
    reveal_strlit("X-Forwarded-Proto");
    reveal_strlit("X-Forwarded-Host");
    other_header(h, "X-Forwarded-For"@, " 127.0.0.1"@);
    other_header(h, "X-Forwarded-Proto"@, " "@ + proto);
    other_header(h, "X-Forwarded-Host"@, " "@ + h.host);
    hops_header(h, (h.hops + 1) as nat);
    empty_line(head_of_lines(with_d));
}

/// A request that passes through the proxy has one hop more, the same host, and asks
/// for the same upgrade; its head still ends as a head does.
pub proof fn hop_added(text: Seq<char>, tls: bool)
    requires
        is_head(text),
        head_of(text).hops < u32::MAX,
    ensures
        head_of(forwarded(text, tls)) == (HeadV {
            hops: (head_of(text).hops + 1) as u32,
            ..head_of(text)
        }),
        is_head(forwarded(text, tls)),
{
    let p = eol();
    let h = head_of(text);
    let start = text.take(text.len() - 4);
    let proto = if tls {
        "https"@
    } else {
        "http"@
    };
    let a = "X-Forwarded-For"@ + ":"@ + " 127.0.0.1"@;
    let b = "X-Forwarded-Proto"@ + ":"@ + (" "@ + proto);
    let c = "X-Forwarded-Host"@ + ":"@ + (" "@ + h.host);
    let d = "x-portless-hops"@ + ":"@ + (" "@ + dec((h.hops + 1) as nat));
    let t = forwarded(text, tls);
    head_parts(text);
    head_lines(text);
    added_lines(h, tls);
    assert(t =~= start + p + (a + p + (b + p + (c + p + (d + p + p)))));
    four_more_lines(start, a, b, c, d);
    added_says(header_lines(text), h, tls);
    forwarded_ends(text, tls);
}

proof fn forwarded_ends(text: Seq<char>, tls: bool)
    requires
        is_head(text),
    ensures
        is_head(forwarded(text, tls)),
{
    let t = forwarded(text, tls);
    head_parts(text);
    eol_chars();
    reveal_strlit("\r\n\r\n");
    let extra = added_headers(head_of(text), tls);
    assert(extra.len() >= 2 && extra[extra.len() - 2] == '\r' && extra[extra.len() - 1] == '\n');
    assert(t.subrange(t.len() - 4, t.len() as int) =~= "\r\n\r\n"@);
}

/// The text of a head that passed through the proxy some times.
pub open spec fn passed(text: Seq<char>, times: nat, tls: bool) -> Seq<char>
    decreases times,
{
    if times == 0 {
        text
    } else {
        forwarded(passed(text, (times - 1) as nat, tls), tls)
    }
}

/// The hops of a request count how often it passed through the proxy, so that a
/// request that goes in circles is answered as a loop once they are too many.
pub proof fn hops_count_passes(text: Seq<char>, times: nat, tls: bool)
    requires
        is_head(text),
        head_of(text).hops + times <= u32::MAX,
    ensures
        head_of(passed(text, times, tls)) == (HeadV {
            hops: (head_of(text).hops + times) as u32,
            ..head_of(text)
        }),
        is_head(passed(text, times, tls)),
    decreases times,
{
    if times > 0 {
        hops_count_passes(text, (times - 1) as nat, tls);
        hop_added(passed(text, (times - 1) as nat, tls), tls);
    }
}

proof fn encode_joined(a: Seq<char>, b: Seq<char>)
    ensures
        encode_utf8(a + b) == encode_utf8(a) + encode_utf8(b),
    decreases a.len(),
{
    if a.len() == 0 {
        assert(a + b =~= b);
        assert(encode_utf8(a) + encode_utf8(b) =~= encode_utf8(b));
    } else {
        encode_joined(a.drop_first(), b);
        assert((a + b).drop_first() =~= a.drop_first() + b);
        assert(encode_utf8(a + b) =~= encode_utf8(a) + encode_utf8(b));
    }
}

proof fn eol_bytes()
    ensures
        encode_utf8(eol()).len() == 2,
{
    eol_chars();
    reveal_with_fuel(encode_utf8, 3);
    assert(encode_scalar('\r' as u32).len() == 1);
    assert(encode_scalar('\n' as u32).len() == 1);
    assert(eol().drop_first()[0] == '\n');
}

/// The bytes that are forwarded for a head in UTF-8 are those of its text with the
/// added headers.
pub proof fn forwarded_bytes(text: Seq<char>, tls: bool)
    requires
        is_head(text),
    ensures
        rewritten(encode_utf8(text), added_headers(head_of(text), tls)) == encode_utf8(
            forwarded(text, tls),
        ),
        decode_utf8(rewritten(encode_utf8(text), added_headers(head_of(text), tls))) == forwarded(
            text,
            tls,
        ),
{
    let extra = added_headers(head_of(text), tls);
    let start = text.take(text.len() - 2);
    head_parts(text);
    eol_bytes();
    assert(text =~= start + eol());
    encode_joined(start, eol());
    encode_joined(start, extra);
    encode_joined(start + extra, eol());
    let raw = encode_utf8(text);
    assert(raw.take(raw.len() - 2) =~= encode_utf8(start));
    assert(raw.skip(raw.len() - 2) =~= encode_utf8(eol()));
    vstd::utf8::encode_utf8_decode_utf8(forwarded(text, tls));
}

/// Replacing a character by a text that does not have it leaves none of it, and brings
/// in no other character that neither text has.
pub proof fn replaced_lacks(s: Seq<char>, c: char, with: Seq<char>, d: char)
    requires
        !with.contains(d),
        d == c || !s.contains(d),
    ensures
        !replaced(s, c, with).contains(d),
    decreases s.len(),
{
    if s.len() > 0 {
        let init = s.drop_last();
        assert forall|k: int| 0 <= k < init.len() implies init[k] == s[k] by {}
        if init.contains(d) {
            let k = choose|k: int| 0 <= k < init.len() && init[k] == d;
            assert(s[k] == d);
        }
        replaced_lacks(init, c, with, d);
        let r = replaced(init, c, with);
        let all = replaced(s, c, with);
        if all.contains(d) {
            let k = choose|k: int| 0 <= k < all.len() && all[k] == d;
            if k < r.len() {
                assert(r[k] == d);
            } else if s.last() == c {
                assert(with[k - r.len()] == d);
            } else {
                assert(s[s.len() - 1] == d);
            }
        }
    }
}

/// A text that is written into a page opens and closes no tag, and ends no attribute.
pub proof fn escaped_is_text(s: Seq<char>)
    ensures
        !escaped(s).contains('<'),
        !escaped(s).contains('>'),
        !escaped(s).contains('"'),
{
    reveal_strlit("&amp;");
    reveal_strlit("&lt;");
    reveal_strlit("&gt;");
    reveal_strlit("&quot;");
    let a = replaced(s, '&', "&amp;"@);
    let b = replaced(a, '<', "&lt;"@);
    let c = replaced(b, '>', "&gt;"@);
    replaced_lacks(a, '<', "&lt;"@, '<');
    replaced_lacks(b, '>', "&gt;"@, '<');
    replaced_lacks(b, '>', "&gt;"@, '>');
    replaced_lacks(c, '"', "&quot;"@, '<');
    replaced_lacks(c, '"', "&quot;"@, '>');
    replaced_lacks(c, '"', "&quot;"@, '"');
}

} // verus!
