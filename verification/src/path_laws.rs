//! What lies below what, whatever the names in the paths are.

use vstd::prelude::*;
use vstd::string::*;

use crate::paths::{
    components, components_end, components_from, file_name, join_path, nth_component, path_within,
    relative,
};
use crate::text::{join, split, starts_with};
use crate::text_laws::{char_at, joined_pieces, lacks, pieces_apart};

verus! {

/// Whether a text is the name of a file or directory: not empty, not a dot, without a
/// slash.
pub open spec fn is_name(s: Seq<char>) -> bool {
    s.len() > 0 && s != "."@ && lacks(s, '/')
}

/// Whether all texts are names.
pub open spec fn are_names(v: Seq<Seq<char>>) -> bool {
    forall|i: int| 0 <= i < v.len() ==> is_name(#[trigger] v[i])
}

/// The path of these names, one below the other, below the root.
pub open spec fn rooted(v: Seq<Seq<char>>) -> Seq<char> {
    "/"@ + join(v, "/"@)
}

/// Names are the components that they are.
proof fn names_are_components(v: Seq<Seq<char>>, i: int)
    requires
        are_names(v),
        0 <= i <= v.len(),
    ensures
        components_from(v, i) == v.skip(i),
        components_from(seq![Seq::<char>::empty()] + v, i + 1) == v.skip(i),
    decreases v.len() - i,
{
    let w = seq![Seq::<char>::empty()] + v;
    if i < v.len() {
        names_are_components(v, i + 1);
        assert(is_name(v[i]));
        assert(w[i + 1] == v[i]);
        assert(seq![v[i]] + v.skip(i + 1) =~= v.skip(i));
    } else {
        assert(v.skip(i) =~= Seq::empty());
    }
}

/// A joined text starts with its first piece.
proof fn joined_start(v: Seq<Seq<char>>)
    requires
        v.len() > 0,
        v[0].len() > 0,
    ensures
        join(v, "/"@).len() > 0,
        join(v, "/"@)[0] == v[0][0],
        join(v, "/"@).last() == v.last().last() || v.last().len() == 0,
    decreases v.len(),
{
    if v.len() > 1 {
        let d = v.drop_last();
        assert(d[0] == v[0]);
        joined_start(d);
        assert(join(v, "/"@) == join(d, "/"@) + "/"@ + v.last());
        reveal_strlit("/");
        assert(join(v, "/"@)[0] == join(d, "/"@)[0]);
    }
}

/// The pieces of a path of names.
proof fn names_split(v: Seq<Seq<char>>)
    requires
        are_names(v),
    ensures
        v.len() > 0 ==> split(join(v, "/"@), "/"@) == v,
        v.len() > 0 ==> components(join(v, "/"@)) == v,
        v.len() > 0 ==> split(rooted(v), "/"@) == seq![Seq::<char>::empty()] + v,
        components(rooted(v)) == seq!["/"@] + v,
        starts_with(rooted(v), "/"@),
        v.len() > 0 ==> !starts_with(join(v, "/"@), "/"@),
{
    reveal_strlit("/");
    assert("/"@ =~= seq!['/']);
    let e = Seq::<char>::empty();
    let t = join(v, "/"@);
    let r = rooted(v);
    char_at(r, '/', 0);
    assert(r[0] == '/');
    assert(r =~= e + seq!['/'] + t);
    pieces_apart(e, '/', t);
    crate::text_laws::one_piece(e, '/');
    if v.len() > 0 {
        assert forall|i: int| 0 <= i < v.len() implies lacks(#[trigger] v[i], '/') by {
            assert(is_name(v[i]));
        }
        joined_pieces(v, '/');
        assert(is_name(v[0]));
        joined_start(v);
        char_at(t, '/', 0);
        names_are_components(v, 0);
        assert(v.skip(0) =~= v);
        let w = seq![e] + v;
        assert(split(r, "/"@) =~= w);
        assert(w[0].len() == 0);
        assert(components_from(w, 0) == components_from(w, 1));
    } else {
        crate::text_laws::one_piece(e, '/');
        assert(t =~= e);
        let w = split(r, "/"@);
        assert(w =~= seq![e, e]);
        assert(components_from(w, 2) == Seq::<Seq<char>>::empty());
        assert(components_from(w, 1) == Seq::<Seq<char>>::empty());
        assert(components_from(w, 0) == Seq::<Seq<char>>::empty());
        assert(components(r) =~= seq!["/"@] + v);
    }
}

/// The components of a path of names are the names.
pub proof fn path_of_names(v: Seq<Seq<char>>)
    requires
        are_names(v),
    ensures
        v.len() > 0 ==> components(join(v, "/"@)) == v,
        components(rooted(v)) == seq!["/"@] + v,
{
    names_split(v);
}

/// One path lies within another just where the names of the other are the first of its
/// own; part of a name is not enough.
pub proof fn within_by_names(a: Seq<Seq<char>>, b: Seq<Seq<char>>)
    requires
        are_names(a),
        are_names(b),
    ensures
        path_within(rooted(a), rooted(b)) <==> b.len() <= a.len() && a.take(b.len() as int) == b,
        a.len() > 0 && b.len() > 0 ==> (path_within(join(a, "/"@), join(b, "/"@)) <==> b.len()
            <= a.len() && a.take(b.len() as int) == b),
{
    names_split(a);
    names_split(b);
    let x = seq!["/"@] + a;
    let y = seq!["/"@] + b;
    if b.len() <= a.len() && a.take(b.len() as int) == b {
        assert(x.subrange(0, y.len() as int) =~= y);
        assert(a.subrange(0, b.len() as int) =~= b);
    }
    if y.is_prefix_of(x) {
        assert forall|i: int| 0 <= i < b.len() implies a[i] == #[trigger] b[i] by {
            assert(y[i + 1] == x.subrange(0, y.len() as int)[i + 1]);
        }
        assert(a.take(b.len() as int) =~= b);
    }
    if b.is_prefix_of(a) {
        assert(a.take(b.len() as int) =~= b);
    }
}

/// Two lists joined with a separator between them.
pub proof fn joined_apart(a: Seq<Seq<char>>, b: Seq<Seq<char>>, sep: Seq<char>)
    requires
        a.len() > 0,
        b.len() > 0,
    ensures
        join(a + b, sep) == join(a, sep) + sep + join(b, sep),
    decreases b.len(),
{
    let all = a + b;
    if b.len() == 1 {
        assert(all.drop_last() =~= a);
        assert(all.last() == b[0]);
    } else {
        assert(all.drop_last() =~= a + b.drop_last());
        assert(all.last() == b.last());
        joined_apart(a, b.drop_last(), sep);
        assert(join(all, sep) =~= join(a, sep) + sep + (join(b.drop_last(), sep) + sep + b.last()));
    }
}

/// What stands below a path lies within it, and the path does not lie within that.
pub proof fn below_is_within(base: Seq<Seq<char>>, rest: Seq<Seq<char>>)
    requires
        are_names(base),
        are_names(rest),
        base.len() > 0,
        rest.len() > 0,
    ensures
        path_within(rooted(base) + "/"@ + join(rest, "/"@), rooted(base)),
        !path_within(rooted(base), rooted(base) + "/"@ + join(rest, "/"@)),
        path_within(join(base, "/"@) + "/"@ + join(rest, "/"@), join(base, "/"@)),
        !path_within(join(base, "/"@), join(base, "/"@) + "/"@ + join(rest, "/"@)),
{
    let all = base + rest;
    assert forall|i: int| 0 <= i < all.len() implies is_name(#[trigger] all[i]) by {
        if i < base.len() {
            assert(all[i] == base[i]);
        } else {
            assert(all[i] == rest[i - base.len()]);
        }
    }
    joined_apart(base, rest, "/"@);
    assert(rooted(base) + "/"@ + join(rest, "/"@) =~= rooted(all));
    assert(all.take(base.len() as int) =~= base);
    within_by_names(all, base);
    within_by_names(base, all);
}

/// Where the components of a list that is an empty piece and names stand.
proof fn names_counted(v: Seq<Seq<char>>, n: nat, i: int)
    requires
        are_names(v),
        0 <= i,
        i + n <= v.len(),
    ensures
        nth_component(v, n, i) == i + n,
        nth_component(seq![Seq::<char>::empty()] + v, n, i + 1) == i + 1 + n,
    decreases v.len() - i,
{
    let w = seq![Seq::<char>::empty()] + v;
    if i < v.len() {
        assert(is_name(v[i]));
        assert(w[i + 1] == v[i]);
        if n > 0 {
            names_counted(v, (n - 1) as nat, i + 1);
        }
    }
}

/// What a path is relative to one that it lies below: the names behind, and nothing of
/// the others.
pub proof fn relative_is_rest(base: Seq<Seq<char>>, rest: Seq<Seq<char>>)
    requires
        are_names(base),
        are_names(rest),
    ensures
        relative(rooted(base + rest), rooted(base)) == Some(join(rest, "/"@)),
        base.len() > 0 ==> relative(join(base + rest, "/"@), join(base, "/"@)) == Some(
            join(rest, "/"@),
        ),
{
    let all = base + rest;
    assert forall|i: int| 0 <= i < all.len() implies is_name(#[trigger] all[i]) by {
        if i < base.len() {
            assert(all[i] == base[i]);
        } else {
            assert(all[i] == rest[i - base.len()]);
        }
    }
    within_by_names(all, base);
    assert(all.take(base.len() as int) =~= base);
    names_split(all);
    names_split(base);
    names_counted(all, base.len(), 0);
    let e = Seq::<char>::empty();
    let w = seq![e] + all;
    assert(w[0].len() == 0);
    assert(nth_component(w, base.len(), 0) == nth_component(w, base.len(), 1));
    if all.len() > 0 {
        assert(is_name(all[all.len() - 1]));
        assert(w[w.len() - 1] == all[all.len() - 1]);
        assert(components_end(w, w.len() as int) == w.len());
        assert(components_end(all, all.len() as int) == all.len());
        assert(w.subrange((base.len() + 1) as int, w.len() as int) =~= rest);
        assert(all.subrange(base.len() as int, all.len() as int) =~= rest);
        if rest.len() == 0 {
            assert(join(rest, "/"@) =~= e);
        }
    } else {
        reveal_strlit("/");
        assert("/"@ =~= seq!['/']);
        crate::text_laws::one_piece(e, '/');
        pieces_apart(e, '/', e);
        assert(rooted(all) =~= e + seq!['/'] + e);
        let p = split(rooted(all), "/"@);
        assert(p =~= seq![e, e]);
        reveal_with_fuel(components_end, 3);
        assert(components_end(p, 2) == 0);
        assert(nth_component(p, 0, 2) == 2);
        assert(nth_component(p, 0, 1) == 2);
        assert(nth_component(p, 0, 0) == 2);
    }
}

/// What does not lie within a path is not relative to it.
pub proof fn relative_within(path: Seq<char>, base: Seq<char>)
    ensures
        relative(path, base) is Some <==> path_within(path, base),
{
}

/// A path below a directory is the directory, a slash and that path; one that starts at
/// the root stands for itself.
pub proof fn path_below(dir: Seq<char>, path: Seq<char>)
    ensures
        path.len() > 0 && path[0] == '/' ==> join_path(dir, path) == path,
        dir.len() > 0 && dir.last() != '/' && path.len() > 0 && path[0] != '/' ==> join_path(
            dir,
            path,
        ) == dir + "/"@ + path,
        path.len() > 0 && path[0] != '/' ==> join_path(dir + "/"@, path) == dir + "/"@ + path,
        join_path(Seq::empty(), path) == path,
{
    reveal_strlit("/");
    assert("/"@ =~= seq!['/']);
    char_at(path, '/', 0);
    char_at(dir, '/', dir.len() - 1);
    let d = dir + "/"@;
    char_at(d, '/', d.len() - 1);
    assert(d.last() == '/');
}

/// A file is called by the last name of its path, unless that leads upwards.
pub proof fn called_by_last(v: Seq<Seq<char>>)
    requires
        are_names(v),
        v.len() > 0,
    ensures
        v.last() != ".."@ ==> file_name(rooted(v)) == Some(v.last()) && file_name(join(v, "/"@))
            == Some(v.last()),
        v.last() == ".."@ ==> file_name(rooted(v)) is None && file_name(join(v, "/"@)) is None,
{
    names_split(v);
    assert(is_name(v[v.len() - 1]));
    assert((seq!["/"@] + v).last() == v.last());
    reveal_strlit("/");
    if v.last() == "/"@ {
        assert(v.last()[0] == '/');
    }
}

/// The components of pieces behind others do not depend on what those are.
proof fn pieces_behind(p: Seq<Seq<char>>, q: Seq<Seq<char>>, k: int)
    requires
        p.len() > 0,
        0 <= k <= q.len(),
    ensures
        components_from(p + q, p.len() + k) == components_from(
            seq![Seq::<char>::empty()] + q,
            k + 1,
        ),
    decreases q.len() - k,
{
    let w = seq![Seq::<char>::empty()] + q;
    if k < q.len() {
        assert((p + q)[p.len() + k] == q[k]);
        assert(w[k + 1] == q[k]);
        pieces_behind(p, q, k + 1);
    }
}

/// The components of pieces before others do not depend on what those are.
proof fn pieces_before(p: Seq<Seq<char>>, q: Seq<Seq<char>>, i: int)
    requires
        0 <= i <= p.len(),
    ensures
        components_from(p + q, i) == components_from(p, i) + components_from(
            p + q,
            p.len() as int,
        ),
    decreases p.len() - i,
{
    let e = Seq::<Seq<char>>::empty();
    if i < p.len() {
        assert((p + q)[i] == p[i]);
        pieces_before(p, q, i + 1);
        assert(components_from(p + q, i) =~= components_from(p, i) + components_from(
            p + q,
            p.len() as int,
        ));
    } else {
        assert(components_from(p, i) =~= e);
        assert(e + components_from(p + q, p.len() as int) =~= components_from(
            p + q,
            p.len() as int,
        ));
    }
}

/// A dot between two slashes, a slash too many and a slash at the end mean nothing.
pub proof fn dots_mean_nothing(a: Seq<Seq<char>>, b: Seq<Seq<char>>)
    requires
        are_names(a),
        are_names(b),
        a.len() > 0,
        b.len() > 0,
    ensures
        components(join(a, "/"@) + "/"@ + "."@ + "/"@ + join(b, "/"@)) == a + b,
        components(join(a, "/"@) + "/"@ + "/"@ + join(b, "/"@)) == a + b,
        components(join(a, "/"@) + "/"@) == a,
{
    reveal_strlit("/");
    reveal_strlit(".");
    assert("/"@ =~= seq!['/']);
    let x = join(a, "/"@);
    let y = join(b, "/"@);
    let e = Seq::<char>::empty();
    names_split(a);
    names_split(b);
    assert(is_name(a[0]));
    joined_start(a);
    crate::text_laws::one_piece("."@, '/');
    crate::text_laws::one_piece(e, '/');
    names_are_components(a, 0);
    names_are_components(b, 0);
    assert(a.skip(0) =~= a);
    assert(b.skip(0) =~= b);
    let s = x + "/"@ + "."@ + "/"@ + y;
    let t = x + "/"@ + "/"@ + y;
    let u = x + "/"@;
    pieces_apart("."@, '/', y);
    pieces_apart(e, '/', y);
    assert(s =~= x + seq!['/'] + ("."@ + seq!['/'] + y));
    pieces_apart(x, '/', "."@ + seq!['/'] + y);
    assert(t =~= x + seq!['/'] + (e + seq!['/'] + y));
    pieces_apart(x, '/', e + seq!['/'] + y);
    assert(u =~= x + seq!['/'] + e);
    pieces_apart(x, '/', e);
    one_between(a, "."@, b);
    one_between(a, e, b);
    pieces_before(a, seq![e], 0);
    pieces_behind(a, seq![e], 0);
    let w = seq![e] + seq![e];
    assert(w[1].len() == 0);
    assert(components_from(w, 1) == components_from(w, 2));
    assert(a + Seq::<Seq<char>>::empty() =~= a);
    char_at(s, '/', 0);
    char_at(t, '/', 0);
    char_at(u, '/', 0);
    char_at(x, '/', 0);
    assert(s[0] == x[0] && t[0] == x[0] && u[0] == x[0]);
}

/// A piece between names that is no component.
proof fn one_between(a: Seq<Seq<char>>, c: Seq<char>, b: Seq<Seq<char>>)
    requires
        are_names(a),
        are_names(b),
        a.len() > 0,
        c.len() == 0 || c == "."@,
    ensures
        components_from(a + (seq![c] + b), 0) == a + b,
{
    let e = Seq::<char>::empty();
    let q = seq![c] + b;
    names_are_components(a, 0);
    names_are_components(b, 0);
    assert(a.skip(0) =~= a);
    assert(b.skip(0) =~= b);
    pieces_before(a, q, 0);
    pieces_behind(a, q, 0);
    let w = seq![e] + q;
    assert(w[1] == c);
    assert(components_from(w, 1) == components_from(w, 2));
    let p = seq![e, c];
    assert(w =~= p + b);
    pieces_behind(p, b, 0);
}

} // verus!
