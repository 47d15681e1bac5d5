//! Which server a request goes to and what it is called, whatever the names are.

use vstd::prelude::*;
use vstd::string::*;

use crate::proxy::{
    backend, label_char, label_of, port_of, squeeze, url, wildcard,
};
use crate::proxy_handle::{local_hostname, shared_hostname};
use crate::text::{
    dec, ends_with, is_alnum, is_upper, lower, lowercase, trim_back, trim_both, trim_front, Class,
};

verus! {

proof fn exact_found(routes: Seq<(Seq<char>, u16)>, host: Seq<char>, i: int)
    requires
        0 <= i <= routes.len(),
        forall|j: int| 0 <= j < i ==> (#[trigger] routes[j]).0 != host,
    ensures
        i == routes.len() ==> port_of(routes, host) is None,
        i < routes.len() && routes[i].0 == host ==> port_of(routes, host) == Some(routes[i].1),
    decreases routes.len(),
{
    if routes.len() > 0 && i > 0 {
        assert(routes[0].0 != host);
        let d = routes.drop_first();
        assert forall|j: int| 0 <= j < i - 1 implies (#[trigger] d[j]).0 != host by {
            assert(d[j] == routes[j + 1]);
        }
        exact_found(d, host, i - 1);
        if i < routes.len() {
            assert(d[i - 1] == routes[i]);
        }
    }
}

proof fn parent_found(routes: Seq<(Seq<char>, u16)>, host: Seq<char>, i: int)
    requires
        0 <= i <= routes.len(),
        forall|j: int| 0 <= j < i ==> !ends_with(host, "."@ + (#[trigger] routes[j]).0),
    ensures
        i == routes.len() ==> wildcard(routes, host) is None,
        i < routes.len() && ends_with(host, "."@ + routes[i].0) ==> wildcard(routes, host) == Some(
            routes[i].1,
        ),
    decreases routes.len(),
{
    if routes.len() > 0 && i > 0 {
        assert(!ends_with(host, "."@ + routes[0].0));
        let d = routes.drop_first();
        assert forall|j: int| 0 <= j < i - 1 implies !ends_with(
            host,
            "."@ + (#[trigger] d[j]).0,
        ) by {
            assert(d[j] == routes[j + 1]);
        }
        parent_found(d, host, i - 1);
        if i < routes.len() {
            assert(d[i - 1] == routes[i]);
        }
    }
}

/// A request goes to the server of the route for its host; else to that of the first route
/// for a domain that the host lies below, at any depth; else nowhere.
pub proof fn request_routed(
    routes: Seq<(Seq<char>, u16)>,
    sub: Seq<char>,
    host: Seq<char>,
    i: int,
)
    requires
        0 <= i < routes.len(),
    ensures
        routes[i].0 == host && (forall|j: int| 0 <= j < i ==> (#[trigger] routes[j]).0 != host)
            ==> backend(routes, host) == Some(routes[i].1),
        host == sub + "."@ + routes[i].0 && (forall|j: int|
            0 <= j < routes.len() ==> (#[trigger] routes[j]).0 != host) && (forall|
            j: int,
            x: Seq<char>,
        |
            0 <= j < i ==> host != #[trigger] (x + "."@ + routes[j].0)) ==> backend(routes, host)
            == Some(routes[i].1),
        (forall|j: int| 0 <= j < routes.len() ==> (#[trigger] routes[j]).0 != host) && (forall|
            j: int,
            x: Seq<char>,
        |
            0 <= j < routes.len() ==> host != #[trigger] (x + "."@ + routes[j].0)) ==> backend(
            routes,
            host,
        ) is None,
{
    if routes[i].0 == host && forall|j: int| 0 <= j < i ==> (#[trigger] routes[j]).0 != host {
        exact_found(routes, host, i);
    }
    if forall|j: int| 0 <= j < routes.len() ==> (#[trigger] routes[j]).0 != host {
        exact_found(routes, host, routes.len() as int);
    }
    if host == sub + "."@ + routes[i].0 && forall|j: int, x: Seq<char>|
        0 <= j < i ==> host != #[trigger] (x + "."@ + routes[j].0) {
        let p = "."@ + routes[i].0;
        assert(host.subrange(host.len() - p.len(), host.len() as int) =~= p);
        assert forall|j: int| 0 <= j < i implies !ends_with(
            host,
            "."@ + (#[trigger] routes[j]).0,
        ) by {
            no_parent(host, routes[j].0);
            let q = "."@ + routes[j].0;
            if ends_with(host, q) {
                let x = host.take(host.len() - q.len());
                assert(host =~= x + "."@ + routes[j].0);
            }
        }
        parent_found(routes, host, i);
    }
    if forall|j: int, x: Seq<char>|
        0 <= j < routes.len() ==> host != #[trigger] (x + "."@ + routes[j].0) {
        assert forall|j: int| 0 <= j < routes.len() implies !ends_with(
            host,
            "."@ + (#[trigger] routes[j]).0,
        ) by {
            no_parent(host, routes[j].0);
            let q = "."@ + routes[j].0;
            if ends_with(host, q) {
                let x = host.take(host.len() - q.len());
                assert(host =~= x + "."@ + routes[j].0);
            }
        }
        parent_found(routes, host, routes.len() as int);
    }
}

proof fn no_parent(host: Seq<char>, parent: Seq<char>)
    ensures
        ends_with(host, "."@ + parent) ==> host == host.take(
            host.len() - ("."@ + parent).len(),
        ) + "."@ + parent,
{
    let q = "."@ + parent;
    if ends_with(host, q) {
        let x = host.take(host.len() - q.len());
        let w = host.subrange(host.len() - q.len(), host.len() as int);
        assert(host =~= x + w);
        assert(x + q =~= x + "."@ + parent);
    }
}

/// The URL of a host has its scheme, and its port unless that is the scheme's own.
pub proof fn url_told(host: Seq<char>, port: u16)
    ensures
        url(host, 443, true) == "https://"@ + host,
        url(host, 80, false) == "http://"@ + host,
        port != 443 ==> url(host, port, true) == "https://"@ + host + ":"@ + dec(port as nat),
        port != 80 ==> url(host, port, false) == "http://"@ + host + ":"@ + dec(port as nat),
{
    reveal_strlit("http");
    reveal_strlit("https");
    reveal_strlit("://");
    reveal_strlit("http://");
    reveal_strlit("https://");
    assert("https"@ + "://"@ + host =~= "https://"@ + host);
    assert("http"@ + "://"@ + host =~= "http://"@ + host);
    assert(url(host, 443, true) =~= "https://"@ + host);
    assert(url(host, 80, false) =~= "http://"@ + host);
}

/// A text in which no two hyphens follow each other is squeezed to itself.
proof fn already_squeezed(s: Seq<char>)
    requires
        forall|i: int| 0 <= i < s.len() - 1 ==> (#[trigger] s[i]) != '-' || s[i + 1] != '-',
    ensures
        squeeze(s) == s,
    decreases s.len(),
{
    if s.len() > 0 {
        let d = s.drop_last();
        assert forall|i: int| 0 <= i < d.len() - 1 implies (#[trigger] d[i]) != '-' || d[i + 1]
            != '-' by {
            assert(d[i] == s[i] && d[i + 1] == s[i + 1]);
        }
        already_squeezed(d);
        if d.len() > 0 {
            assert(s[d.len() - 1] == d.last());
        }
        assert(d.push(s.last()) =~= s);
    }
}

/// Hyphens behind a text that ends in none are squeezed to one.
proof fn gap_squeezed(a: Seq<char>, gap: Seq<char>)
    requires
        a.len() > 0,
        a.last() != '-',
        gap.len() > 0,
        forall|i: int| 0 <= i < gap.len() ==> (#[trigger] gap[i]) == '-',
    ensures
        squeeze(a).len() > 0,
        squeeze(a).last() == a.last(),
        squeeze(a + gap) == squeeze(a).push('-'),
    decreases gap.len(),
{
    let d = gap.drop_last();
    assert((a + gap).drop_last() =~= a + d);
    assert((a + gap).last() == gap[gap.len() - 1]);
    if d.len() > 0 {
        assert forall|i: int| 0 <= i < d.len() implies (#[trigger] d[i]) == '-' by {
            assert(d[i] == gap[i]);
        }
        gap_squeezed(a, d);
        assert(squeeze(a + d).last() == '-');
    } else {
        assert(a + d =~= a);
    }
}

/// What starts with no hyphen is squeezed on its own.
proof fn rest_squeezed(a: Seq<char>, b: Seq<char>)
    requires
        b.len() > 0,
        b[0] != '-',
    ensures
        squeeze(a + b) == squeeze(a) + squeeze(b),
        squeeze(b).len() > 0,
        squeeze(b)[0] == b[0],
        b.last() != '-' ==> squeeze(b).last() == b.last(),
    decreases b.len(),
{
    let d = b.drop_last();
    assert((a + b).drop_last() =~= a + d);
    assert((a + b).last() == b.last());
    if d.len() > 0 {
        assert(d[0] == b[0]);
        rest_squeezed(a, d);
        assert((squeeze(a) + squeeze(d)).last() == squeeze(d).last());
        assert(squeeze(a + b) =~= squeeze(a) + squeeze(b));
    } else {
        assert(b.last() == b[0]);
        assert(a + d =~= a);
        assert(d =~= Seq::empty());
        assert(squeeze(d) =~= Seq::empty());
        assert(squeeze(a + b) =~= squeeze(a) + squeeze(b));
    }
}

/// Letters and digits are no hyphen once they are lower case.
proof fn letter_kept(c: char)
    requires
        is_alnum(c),
    ensures
        label_char(c) == lower(c),
        label_char(c) != '-',
{
    if is_upper(c) {
        assert(lower(c) as int == c as int + 32);
    }
}

/// What starts and ends with no hyphen is not trimmed.
proof fn untrimmed(s: Seq<char>)
    requires
        s.len() > 0,
        s[0] != '-',
        s.last() != '-',
    ensures
        trim_both(s, Class::Is('-')) == s,
{
}

/// The label of a name of letters and digits is the name in lower case; other signs
/// between two such parts, however many, become one hyphen, and before or behind the name
/// nothing.
pub proof fn labels_told(a: Seq<char>, gap: Seq<char>, b: Seq<char>, letters: Seq<char>)
    requires
        a.len() > 0,
        b.len() > 0,
        gap.len() > 0,
        is_alnum(a[0]),
        is_alnum(a.last()),
        is_alnum(b[0]),
        is_alnum(b.last()),
        forall|i: int| 0 <= i < gap.len() ==> !is_alnum(#[trigger] gap[i]),
        letters.len() > 0,
        forall|i: int| 0 <= i < letters.len() ==> is_alnum(#[trigger] letters[i]),
    ensures
        label_of(letters) == lowercase(letters),
        label_of(a + gap + b) == label_of(a) + "-"@ + label_of(b),
        label_of(a + gap) == label_of(a),
        label_of(gap + b) == label_of(b),
{
    let f = |c: char| label_char(c);
    reveal_strlit("-");
    letters_kept(letters);
    let x = a.map_values(f);
    let g = gap.map_values(f);
    let y = b.map_values(f);
    letter_kept(a[0]);
    letter_kept(a.last());
    letter_kept(b[0]);
    letter_kept(b.last());
    assert forall|i: int| 0 <= i < g.len() implies #[trigger] g[i] == '-' by {
        assert(!is_alnum(gap[i]));
        if gap[i] == '-' {
            assert(lower('-') == '-');
        }
    }
    assert((a + gap + b).map_values(f) =~= x + g + y);
    assert((a + gap).map_values(f) =~= x + g);
    assert((gap + b).map_values(f) =~= g + y);
    squeezed_apart(x, g, y);
}

proof fn letters_kept(letters: Seq<char>)
    requires
        letters.len() > 0,
        forall|i: int| 0 <= i < letters.len() ==> is_alnum(#[trigger] letters[i]),
    ensures
        label_of(letters) == lowercase(letters),
{
    let f = |c: char| label_char(c);
    let l = letters.map_values(f);
    assert forall|i: int| 0 <= i < l.len() implies #[trigger] l[i] != '-' && l[i] == lower(
        letters[i],
    ) by {
        letter_kept(letters[i]);
    }
    already_squeezed(l);
    untrimmed(l);
    assert(l =~= lowercase(letters));
}

/// Parts with hyphens between, behind or before them, squeezed and trimmed.
proof fn squeezed_apart(x: Seq<char>, g: Seq<char>, y: Seq<char>)
    requires
        x.len() > 0,
        y.len() > 0,
        g.len() > 0,
        x[0] != '-',
        x.last() != '-',
        y[0] != '-',
        y.last() != '-',
        forall|i: int| 0 <= i < g.len() ==> #[trigger] g[i] == '-',
    ensures
        trim_both(squeeze(x + g + y), Class::Is('-')) == trim_both(squeeze(x), Class::Is('-'))
            + "-"@ + trim_both(squeeze(y), Class::Is('-')),
        trim_both(squeeze(x + g), Class::Is('-')) == trim_both(squeeze(x), Class::Is('-')),
        trim_both(squeeze(g + y), Class::Is('-')) == trim_both(squeeze(y), Class::Is('-')),
{
    reveal_strlit("-");
    let e = Seq::<char>::empty();
    gap_squeezed(x, g);
    rest_squeezed(e, x);
    assert(e + x =~= x);
    rest_squeezed(e, y);
    assert(e + y =~= y);
    rest_squeezed(x + g, y);
    rest_squeezed(g, y);
    let p = squeeze(x);
    let q = squeeze(y);
    untrimmed(p);
    untrimmed(q);
    let all = p.push('-') + q;
    assert(all[0] == p[0] && all.last() == q.last());
    untrimmed(all);
    assert(all =~= p + "-"@ + q);
    let t = p.push('-');
    assert(t.drop_last() =~= p);
    assert(t[0] == p[0]);
    assert(trim_back(t, Class::Is('-')) == trim_back(p, Class::Is('-')));
    hyphens_squeezed(g);
    let u = squeeze(g) + q;
    assert(u =~= seq!['-'] + q);
    assert(u.drop_first() =~= q);
    assert(trim_front(u, Class::Is('-')) == trim_front(q, Class::Is('-')));
}

proof fn hyphens_squeezed(g: Seq<char>)
    requires
        g.len() > 0,
        forall|i: int| 0 <= i < g.len() ==> (#[trigger] g[i]) == '-',
    ensures
        squeeze(g) == seq!['-'],
    decreases g.len(),
{
    let d = g.drop_last();
    assert(g.last() == g[g.len() - 1]);
    if d.len() > 0 {
        assert forall|i: int| 0 <= i < d.len() implies (#[trigger] d[i]) == '-' by {
            assert(d[i] == g[i]);
        }
        hyphens_squeezed(d);
        assert(squeeze(d).last() == '-');
    } else {
        assert(squeeze(d) == d);
        assert(squeeze(g) == d.push('-'));
        assert(squeeze(g) =~= seq!['-']);
    }
}

/// The hostname of a resource is its label below the top-level domain; behind a shared
/// proxy the project's label stands in it, once.
pub proof fn hostnames_told(label: Seq<char>, project: Seq<char>, tld: Seq<char>)
    ensures
        local_hostname(label, tld) == label_of(label) + "."@ + tld,
        label_of(label) != label_of(project) && label_of(label).len() > 0 ==> shared_hostname(
            label,
            project,
            tld,
        ) == label_of(label) + "-"@ + label_of(project) + "."@ + tld,
        shared_hostname(project, project, tld) == label_of(project) + "."@ + tld,
        label_of(label).len() == 0 ==> shared_hostname(label, project, tld) == label_of(project)
            + "."@ + tld,
{
}

} // verus!
