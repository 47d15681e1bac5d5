//! What services tell each other through their environment, whatever they are called.

use vstd::prelude::*;
use vstd::string::*;

use crate::engine::services::{
    distinct_services, endpoint_env, endpoint_json, endpoint_of, env_key, env_of, first_value,
    key_chars, resolved_port, service_found, service_index, service_removed, service_set,
    services_env, services_json, variable_name, EndpointV,
};
use crate::json::{at, empty_table, JsonV};
use crate::json_laws::{empty_has_none, key_set, stays_table};
use crate::manifest::ProbePort;
use crate::text::{dec, is_alnum, parsed_dec, starts_with, trim_back, upper, Class};

verus! {

/// What was set for a service is found again; all others are found as before.
pub proof fn set_then_found(
    v: Seq<(Seq<char>, EndpointV)>,
    name: Seq<char>,
    e: EndpointV,
    other: Seq<char>,
)
    ensures
        endpoint_of(service_set(v, name, e), name) == Some(e),
        other != name ==> endpoint_of(service_set(v, name, e), other) == endpoint_of(v, other),
{
    let w = service_set(v, name, e);
    service_found(v, name, 0);
    service_found(w, name, 0);
    service_found(v, other, 0);
    service_found(w, other, 0);
    let i = service_index(v, name, 0);
    let j = service_index(w, name, 0);
    if i < v.len() {
        assert(w[i].0 == name);
        assert(j <= i);
        if j < i {
            assert(w[j] == v[j]);
        }
    } else {
        assert(w[v.len() as int].0 == name);
        if j < v.len() {
            assert(w[j] == v[j]);
        }
    }
    if other != name {
        let a = service_index(v, other, 0);
        let b = service_index(w, other, 0);
        if a < v.len() {
            assert(w[a] == v[a]);
            if b < a {
                assert(w[b] == v[b]);
            }
        } else if b < w.len() {
            if b < v.len() {
                assert(w[b] == v[b]);
            }
        }
    }
}

/// A service that was removed is not found any more; all others are found as before.
pub proof fn removed_then_gone(
    v: Seq<(Seq<char>, EndpointV)>,
    name: Seq<char>,
    other: Seq<char>,
)
    requires
        distinct_services(v),
    ensures
        endpoint_of(service_removed(v, name), name) is None,
        other != name ==> endpoint_of(service_removed(v, name), other) == endpoint_of(v, other),
{
    let w = service_removed(v, name);
    service_found(v, name, 0);
    service_found(w, name, 0);
    service_found(v, other, 0);
    service_found(w, other, 0);
    let i = service_index(v, name, 0);
    let j = service_index(w, name, 0);
    if i < v.len() {
        if j < w.len() {
            if j < i {
                assert(w[j] == v[j]);
            } else {
                assert(w[j] == v[j + 1]);
            }
        }
        if other != name {
            let a = service_index(v, other, 0);
            let b = service_index(w, other, 0);
            if a < v.len() {
                let c = if a < i {
                    a
                } else {
                    a - 1
                };
                assert(w[c] == v[a]);
                if b < c {
                    if b < i {
                        assert(w[b] == v[b]);
                    } else {
                        assert(w[b] == v[b + 1]);
                    }
                }
            } else if b < w.len() {
                if b < i {
                    assert(w[b] == v[b]);
                } else {
                    assert(w[b] == v[b + 1]);
                }
            }
        }
    }
}

proof fn upper_no_underscore(c: char)
    requires
        is_alnum(c),
    ensures
        upper(c) != '_',
{
}

proof fn key_of_letters(s: Seq<char>)
    requires
        forall|i: int| 0 <= i < s.len() ==> is_alnum(#[trigger] s[i]),
    ensures
        key_chars(s) == s.map_values(|c: char| upper(c)),
    decreases s.len(),
{
    if s.len() > 0 {
        let d = s.drop_last();
        assert forall|i: int| 0 <= i < d.len() implies is_alnum(#[trigger] d[i]) by {
            assert(d[i] == s[i]);
        }
        key_of_letters(d);
        assert(is_alnum(s[s.len() - 1]));
        assert(key_chars(s) =~= s.map_values(|c: char| upper(c)));
    } else {
        assert(key_chars(s) =~= s.map_values(|c: char| upper(c)));
    }
}

/// The key of a text that ends in a letter or digit ends in one.
proof fn key_ends(s: Seq<char>)
    requires
        s.len() > 0,
        is_alnum(s.last()),
    ensures
        key_chars(s).len() > 0,
        key_chars(s).last() != '_',
        trim_back(key_chars(s), Class::Is('_')) == key_chars(s),
        env_key(s) == key_chars(s),
{
    upper_no_underscore(s.last());
}

/// Signs behind a letter or digit give one underscore.
proof fn key_of_gap(a: Seq<char>, gap: Seq<char>)
    requires
        a.len() > 0,
        is_alnum(a.last()),
        gap.len() > 0,
        forall|i: int| 0 <= i < gap.len() ==> !is_alnum(#[trigger] gap[i]),
    ensures
        key_chars(a + gap) == key_chars(a).push('_'),
    decreases gap.len(),
{
    let d = gap.drop_last();
    assert((a + gap).drop_last() =~= a + d);
    assert((a + gap).last() == gap.last());
    assert(!is_alnum(gap[gap.len() - 1]));
    key_ends(a);
    if d.len() > 0 {
        assert forall|i: int| 0 <= i < d.len() implies !is_alnum(#[trigger] d[i]) by {
            assert(d[i] == gap[i]);
        }
        key_of_gap(a, d);
        assert(key_chars(a + d).last() == '_');
    } else {
        assert(a + d =~= a);
    }
}

/// What starts with a letter or digit has its own key, whatever stands before it.
proof fn key_of_rest(a: Seq<char>, b: Seq<char>)
    requires
        b.len() > 0,
        is_alnum(b[0]),
    ensures
        key_chars(a + b) == key_chars(a) + key_chars(b),
        key_chars(b).len() > 0,
    decreases b.len(),
{
    let d = b.drop_last();
    let e = Seq::<char>::empty();
    assert((a + b).drop_last() =~= a + d);
    assert((a + b).last() == b.last());
    if d.len() > 0 {
        assert(d[0] == b[0]);
        key_of_rest(a, d);
        assert((key_chars(a) + key_chars(d)).last() == key_chars(d).last());
        assert(key_chars(a + b) =~= key_chars(a) + key_chars(b));
    } else {
        assert(b.last() == b[0]);
        assert(a + d =~= a);
        assert(d =~= e);
        assert(key_chars(d) =~= e);
        assert(key_chars(a + b) =~= key_chars(a) + key_chars(b));
    }
}

/// A service named by letters and digits has its name in upper case in the names of its
/// variables; signs between two such parts, however many, become one underscore, and signs
/// around the name nothing.
pub proof fn keys_told(a: Seq<char>, gap: Seq<char>, b: Seq<char>, letters: Seq<char>)
    requires
        a.len() > 0,
        b.len() > 0,
        gap.len() > 0,
        is_alnum(a.last()),
        is_alnum(b[0]),
        is_alnum(b.last()),
        forall|i: int| 0 <= i < gap.len() ==> !is_alnum(#[trigger] gap[i]),
        letters.len() > 0,
        forall|i: int| 0 <= i < letters.len() ==> is_alnum(#[trigger] letters[i]),
    ensures
        env_key(letters) == letters.map_values(|c: char| upper(c)),
        env_key(a + gap + b) == env_key(a) + "_"@ + env_key(b),
        env_key(a + gap) == env_key(a),
        env_key(gap + b) == env_key(b),
        env_key(gap) == "SERVICE"@,
{
    reveal_strlit("_");
    assert(is_alnum(letters[letters.len() - 1]));
    key_of_letters(letters);
    key_ends(letters);
    key_ends(a);
    key_ends(b);
    key_of_gap(a, gap);
    key_of_rest(a + gap, b);
    let s = a + gap + b;
    assert(s.last() == b.last());
    key_ends(s);
    assert(env_key(s) =~= env_key(a) + "_"@ + env_key(b));
    let k = key_chars(a + gap);
    assert(k.last() == '_');
    assert(k.drop_last() =~= key_chars(a));
    assert(trim_back(k, Class::Is('_')) == trim_back(key_chars(a), Class::Is('_')));
    no_key(gap);
    key_of_rest(gap, b);
    assert((gap + b).last() == b.last());
    key_ends(gap + b);
    assert(key_chars(gap + b) =~= key_chars(b));
}

proof fn no_key(gap: Seq<char>)
    requires
        forall|i: int| 0 <= i < gap.len() ==> !is_alnum(#[trigger] gap[i]),
    ensures
        key_chars(gap) == Seq::<char>::empty(),
    decreases gap.len(),
{
    if gap.len() > 0 {
        let d = gap.drop_last();
        assert forall|i: int| 0 <= i < d.len() implies !is_alnum(#[trigger] d[i]) by {
            assert(d[i] == gap[i]);
        }
        no_key(d);
        assert(!is_alnum(gap[gap.len() - 1]));
    }
}

/// The variables of a service, among those of all.
proof fn env_has(v: Seq<(Seq<char>, EndpointV)>, i: int, k: int)
    requires
        0 <= i < v.len(),
        0 <= k < endpoint_env(v[i].0, v[i].1).len(),
    ensures
        services_env(v).contains(endpoint_env(v[i].0, v[i].1)[k]),
    decreases v.len(),
{
    let d = v.drop_last();
    let x = endpoint_env(v[i].0, v[i].1)[k];
    if i < d.len() {
        assert(d[i] == v[i]);
        env_has(d, i, k);
        let j = choose|j: int| 0 <= j < services_env(d).len() && services_env(d)[j] == x;
        assert(services_env(v)[j] == x);
    } else {
        assert(services_env(v)[services_env(d).len() + k] == x);
    }
}

/// Every service is told to all others: its host, its port and its URL, each where there
/// is one, under its own key, and all of them together as JSON.
pub proof fn services_told(v: Seq<(Seq<char>, EndpointV)>, i: int)
    requires
        0 <= i < v.len(),
    ensures
        v[i].1.host matches Some(h) ==> env_of(v).contains(
            ("STARLING_"@ + env_key(v[i].0) + "_HOST"@, h),
        ),
        v[i].1.port matches Some(p) ==> env_of(v).contains(
            ("STARLING_"@ + env_key(v[i].0) + "_PORT"@, dec(p as nat)),
        ),
        v[i].1.url matches Some(u) ==> env_of(v).contains(
            ("STARLING_"@ + env_key(v[i].0) + "_URL"@, u),
        ),
        env_of(v).last().0 == "STARLING_SERVICES_JSON"@,
        env_of(v).last().1 == crate::trees::json_written(services_json(v)),
{
    let e = endpoint_env(v[i].0, v[i].1);
    let key = "STARLING_"@ + env_key(v[i].0);
    let h: int = if v[i].1.host is Some {
        1
    } else {
        0
    };
    let p: int = if v[i].1.port is Some {
        1
    } else {
        0
    };
    if let Some(x) = v[i].1.host {
        assert(e[0] == (key + "_HOST"@, x));
        env_has(v, i, 0);
        more_env(v, e[0]);
    }
    if let Some(x) = v[i].1.port {
        assert(e[h] == (key + "_PORT"@, dec(x as nat)));
        env_has(v, i, h);
        more_env(v, e[h]);
    }
    if let Some(x) = v[i].1.url {
        assert(e[h + p] == (key + "_URL"@, x));
        env_has(v, i, h + p);
        more_env(v, e[h + p]);
    }
}

proof fn more_env(v: Seq<(Seq<char>, EndpointV)>, x: (Seq<char>, Seq<char>))
    requires
        services_env(v).contains(x),
    ensures
        env_of(v).contains(x),
{
    let j = choose|j: int| 0 <= j < services_env(v).len() && services_env(v)[j] == x;
    assert(env_of(v)[j] == x);
}

/// The first value of a key in two lists, one behind the other.
proof fn first_in(a: Seq<(Seq<char>, Seq<char>)>, b: Seq<(Seq<char>, Seq<char>)>, key: Seq<char>)
    ensures
        first_value(a + b, key) == (match first_value(a, key) {
            Some(x) => Some(x),
            None => first_value(b, key),
        }),
    decreases a.len(),
{
    if a.len() > 0 {
        assert((a + b)[0] == a[0]);
        assert((a + b).drop_first() =~= a.drop_first() + b);
        first_in(a.drop_first(), b, key);
    } else {
        assert(a + b =~= b);
    }
}

/// The variables of a service by the key of a port.
proof fn port_in_env(name: Seq<char>, e: EndpointV, key: Seq<char>)
    ensures
        first_value(endpoint_env(name, e), "STARLING_"@ + key + "_PORT"@) == (match e.port {
            Some(p) => if env_key(name) == key {
                Some(dec(p as nat))
            } else {
                None
            },
            None => None,
        }),
{
    reveal_strlit("STARLING_");
    reveal_strlit("_HOST");
    reveal_strlit("_PORT");
    reveal_strlit("_URL");
    let k = "STARLING_"@ + env_key(name);
    let w = "STARLING_"@ + key + "_PORT"@;
    let n = w.len() as int;
    let host = k + "_HOST"@;
    let port = k + "_PORT"@;
    let url = k + "_URL"@;
    assert(w[n - 4] == 'P' && w[n - 1] == 'T');
    assert(host[host.len() - 4] == 'H');
    assert(url[url.len() - 1] == 'L');
    assert(host != w);
    assert(url != w);
    if port == w {
        assert(env_key(name) =~= port.subrange(9, n - 5));
        assert(key =~= w.subrange(9, n - 5));
    }
    assert(env_key(name) == key ==> port =~= w);
    let hs = match e.host {
        Some(h) => seq![(host, h)],
        None => Seq::empty(),
    };
    let ps = match e.port {
        Some(p) => seq![(port, dec(p as nat))],
        None => Seq::empty(),
    };
    let us = match e.url {
        Some(u) => seq![(url, u)],
        None => Seq::empty(),
    };
    first_in(hs + ps, us, w);
    first_in(hs, ps, w);
    reveal_with_fuel(first_value, 2);
    assert(first_value(hs, w) is None);
    assert(first_value(us, w) is None);
}

/// The first service of a key is the one whose port its variable gives.
proof fn port_first(v: Seq<(Seq<char>, EndpointV)>, i: int, p: u16)
    requires
        0 <= i < v.len(),
        v[i].1.port == Some(p),
        forall|j: int| 0 <= j < i ==> env_key((#[trigger] v[j]).0) != env_key(v[i].0),
    ensures
        first_value(services_env(v), "STARLING_"@ + env_key(v[i].0) + "_PORT"@) == Some(
            dec(p as nat),
        ),
    decreases v.len(),
{
    let d = v.drop_last();
    let key = "STARLING_"@ + env_key(v[i].0) + "_PORT"@;
    first_in(services_env(d), endpoint_env(v.last().0, v.last().1), key);
    port_in_env(v.last().0, v.last().1, env_key(v[i].0));
    if i < d.len() {
        assert(d[i] == v[i]);
        assert forall|j: int| 0 <= j < i implies env_key((#[trigger] d[j]).0) != env_key(
            d[i].0,
        ) by {
            assert(d[j] == v[j]);
        }
        port_first(d, i, p);
    } else {
        port_missing(d, env_key(v[i].0));
    }
}

proof fn port_missing(v: Seq<(Seq<char>, EndpointV)>, key: Seq<char>)
    requires
        forall|j: int| 0 <= j < v.len() ==> env_key((#[trigger] v[j]).0) != key,
    ensures
        first_value(services_env(v), "STARLING_"@ + key + "_PORT"@) is None,
    decreases v.len(),
{
    if v.len() > 0 {
        let d = v.drop_last();
        assert forall|j: int| 0 <= j < d.len() implies env_key((#[trigger] d[j]).0) != key by {
            assert(d[j] == v[j]);
        }
        port_missing(d, key);
        first_in(services_env(d), endpoint_env(v.last().0, v.last().1), "STARLING_"@ + key
            + "_PORT"@);
        assert(v.last() == v[v.len() - 1]);
        port_in_env(v.last().0, v.last().1, key);
    }
}

/// A probe whose port is left to the variable of a service, in braces or not, probes the
/// port that the service has.
pub proof fn probe_finds_service(
    v: Seq<(Seq<char>, EndpointV)>,
    i: int,
    p: u16,
    raw: String,
    n: u16,
)
    requires
        0 <= i < v.len(),
        v[i].1.port == Some(p),
        forall|j: int| 0 <= j < i ==> env_key((#[trigger] v[j]).0) != env_key(v[i].0),
        raw@ == "${"@ + ("STARLING_"@ + env_key(v[i].0) + "_PORT"@) + "}"@ || raw@ == "STARLING_"@
            + env_key(v[i].0) + "_PORT"@,
    ensures
        resolved_port(ProbePort::Deferred(raw), env_of(v)) == Ok::<u16, Seq<char>>(p),
        resolved_port(ProbePort::Number(n), env_of(v)) == Ok::<u16, Seq<char>>(n),
{
    let key = "STARLING_"@ + env_key(v[i].0) + "_PORT"@;
    reveal_strlit("${");
    reveal_strlit("}");
    reveal_strlit("STARLING_");
    assert(key[0] == 'S');
    if raw@ == key {
        if starts_with(raw@, "${"@) {
            assert(raw@.subrange(0, 2)[0] == '$');
        }
    } else {
        assert(raw@.subrange(0, 2) =~= "${"@);
        let s = raw@.skip(2);
        assert(s =~= key + "}"@);
        assert(s.subrange(s.len() - 1, s.len() as int) =~= "}"@);
        assert(s.take(s.len() - 1) =~= key);
    }
    assert(variable_name(raw@) == key);
    port_first(v, i, p);
    first_in(services_env(v), seq![env_of(v).last()], key);
    assert(env_of(v) =~= services_env(v) + seq![env_of(v).last()]);
    parsed_dec(p as nat, 65535);
}

/// The JSON of all services has each of them under its name, with what is known of it.
pub proof fn services_in_json(v: Seq<(Seq<char>, EndpointV)>, i: int)
    requires
        distinct_services(v),
        0 <= i < v.len(),
    ensures
        services_json(v) is Table,
        at(services_json(v), v[i].0) is Table,
        at(at(services_json(v), v[i].0), "host"@) == (match v[i].1.host {
            Some(h) => JsonV::Text(h),
            None => JsonV::Null,
        }),
        at(at(services_json(v), v[i].0), "port"@) == (match v[i].1.port {
            Some(p) => JsonV::Int(p as int),
            None => JsonV::Null,
        }),
        at(at(services_json(v), v[i].0), "url"@) == (match v[i].1.url {
            Some(u) => JsonV::Text(u),
            None => JsonV::Null,
        }),
    decreases v.len(),
{
    broadcast use {key_set, stays_table, empty_has_none};

    let d = v.drop_last();
    reveal_strlit("host");
    reveal_strlit("port");
    reveal_strlit("url");
    assert("host"@[0] == 'h' && "port"@[0] == 'p' && "url"@[0] == 'u');
    assert(empty_table() is Table);
    assert forall|a: int, b: int| 0 <= a < b < d.len() implies (#[trigger] d[a]).0 != (
    #[trigger] d[b]).0 by {
        assert(v[a] == d[a] && v[b] == d[b]);
    }
    if i < d.len() {
        assert(d[i] == v[i]);
        services_in_json(d, i);
        assert(v[i].0 != v[v.len() - 1].0);
    } else if d.len() > 0 {
        services_in_json(d, 0);
    }
    assert(services_json(d) is Table);
    assert(endpoint_json(v[i].1) is Table);
}

} // verus!
