//! What holds of numbers, letters and the order of texts and paths.

use vstd::prelude::*;
use vstd::string::*;

use crate::path_laws::{are_names, is_name, path_of_names, rooted};
use crate::path_order::{components_lt, path_lt};
use crate::text::{
    all_digits, dec, digit, ends_with, is_digit, is_space, lower, matches_at, occurs,
    padded, parsed, starts_with, text_lt, upper, value, without_prefix, without_suffix,
};

verus! {

/// A number is written digit by digit, the tens before the ones, without zeros in front.
pub proof fn numbers_written(n: nat, d: nat)
    requires
        d < 10,
    ensures
        dec(0) == "0"@,
        dec(1) == "1"@,
        dec(9) == "9"@,
        n > 0 ==> dec(10 * n + d) == dec(n) + dec(d),
        dec(d).len() == 1,
        dec(d)[0] as int == '0' as int + d,
{
    reveal_strlit("0");
    reveal_strlit("1");
    reveal_strlit("9");
    assert(dec(0) =~= "0"@);
    assert(dec(1) =~= "1"@);
    assert(dec(9) =~= "9"@);
    if n > 0 {
        let m = 10 * n + d;
        assert(m / 10 == n && m % 10 == d);
        assert(dec(m) == dec(n).push(digit(d)));
        assert(dec(m) =~= dec(n) + dec(d));
    }
}

/// A number is read digit by digit, perhaps behind a plus sign, where it does not exceed
/// what it may be; nothing, or any other sign in it, is no number.
pub proof fn numbers_read(s: Seq<char>, d: nat, c: char, max: nat)
    requires
        d < 10,
        all_digits(s),
        s.len() > 0,
    ensures
        parsed(Seq::empty(), max) is None,
        d <= max ==> parsed(dec(d), max) == Some(d),
        parsed(s, max) matches Some(n) ==> parsed(s + dec(d), max) == (if 10 * n + d <= max {
            Some(10 * n + d)
        } else {
            None
        }),
        parsed("+"@ + s, max) == parsed(s, max),
        !is_digit(c) ==> parsed(s.push(c), max) is None,
        parsed(s, max) matches Some(n) ==> n <= max,
{
    reveal_strlit("+");
    crate::text::dec_is_digits(d);
    let x = dec(d);
    assert(x =~= seq![digit(d)]);
    assert(is_digit(x[0]));
    crate::text::parsed_dec(d, if d <= max {
        max
    } else {
        d
    });
    assert(is_digit(s[0]));
    let t = s + x;
    assert(t.drop_last() =~= s);
    assert(t.last() == digit(d));
    assert(digit(d) as int - 48 == d);
    assert(t[0] == s[0]);
    assert(all_digits(t)) by {
        assert forall|i: int| 0 <= i < t.len() implies is_digit(#[trigger] t[i]) by {
            if i < s.len() {
                assert(t[i] == s[i]);
            }
        }
    }
    assert(value(t) == value(s) * 10 + d);
    let p = "+"@ + s;
    assert(p[0] == '+');
    assert(p.drop_first() =~= s);
    if !is_digit(c) {
        let u = s.push(c);
        assert(u[0] == s[0]);
        assert(!is_digit(u[u.len() - 1]));
    }
}

/// Letters change their case and nothing else does.
pub proof fn cases_told(c: char)
    ensures
        'A' <= c <= 'Z' ==> lower(c) as int == c as int + 32,
        !('A' <= c <= 'Z') ==> lower(c) == c,
        'a' <= c <= 'z' ==> upper(c) as int == c as int - 32,
        !('a' <= c <= 'z') ==> upper(c) == c,
{
}

/// Spaces, tabs and ends of lines are white space; letters, digits and signs are not.
pub proof fn spaces_told(c: char)
    ensures
        is_space(' ') && is_space('\t') && is_space('\n') && is_space('\r'),
        '!' <= c <= '~' ==> !is_space(c),
{
}

/// A text starts with what it is made of at its start, and so on.
pub proof fn parts_told(p: Seq<char>, s: Seq<char>)
    ensures
        starts_with(p + s, p),
        ends_with(s + p, p),
        without_prefix(p + s, p) == Some(s),
        without_suffix(s + p, p) == Some(s),
        starts_with(s, p) ==> s == p + s.skip(p.len() as int),
        ends_with(s, p) ==> s == s.take(s.len() - p.len()) + p,
        occurs(s, p) <==> exists|a: Seq<char>, b: Seq<char>| s == #[trigger] (a + p + b),
{
    let x = p + s;
    let y = s + p;
    assert(x.subrange(0, p.len() as int) =~= p);
    assert(x.skip(p.len() as int) =~= s);
    assert(y.subrange(s.len() as int, y.len() as int) =~= p);
    assert(y.take(s.len() as int) =~= s);
    if starts_with(s, p) {
        assert(s =~= s.subrange(0, p.len() as int) + s.skip(p.len() as int));
    }
    if ends_with(s, p) {
        assert(s =~= s.take(s.len() - p.len()) + s.subrange(s.len() - p.len(), s.len() as int));
    }
    if occurs(s, p) {
        let i = choose|i: int| matches_at(s, p, i);
        let a = s.take(i);
        let b = s.skip(i + p.len());
        assert(s =~= a + s.subrange(i, i + p.len()) + b);
        assert(s == a + p + b);
    }
    if exists|a: Seq<char>, b: Seq<char>| s == #[trigger] (a + p + b) {
        let (a, b) = choose|a: Seq<char>, b: Seq<char>| s == #[trigger] (a + p + b);
        assert(s.subrange(a.len() as int, (a.len() + p.len()) as int) =~= p);
        assert(matches_at(s, p, a.len() as int));
    }
}

/// Texts are ordered by the first character in which they differ; a text comes before what
/// it is the start of.
pub proof fn order_told(p: Seq<char>, a: char, x: Seq<char>, b: char, y: Seq<char>)
    ensures
        a != b ==> (text_lt(p + seq![a] + x, p + seq![b] + y) <==> (a as int) < (b as int)),
        text_lt(p, p + seq![a] + x),
        !text_lt(p + seq![a] + x, p),
    decreases p.len(),
{
    let s = p + seq![a] + x;
    let t = p + seq![b] + y;
    if p.len() > 0 {
        let d = p.drop_first();
        order_told(d, a, x, b, y);
        assert(s.drop_first() =~= d + seq![a] + x);
        assert(t.drop_first() =~= d + seq![b] + y);
        assert(s[0] == p[0] && t[0] == p[0]);
    } else {
        assert(s[0] == a && t[0] == b);
    }
}

/// Paths are ordered by the first name in which they differ; a directory comes before what
/// lies below it.
pub proof fn paths_ordered(
    p: Seq<Seq<char>>,
    a: Seq<char>,
    x: Seq<Seq<char>>,
    b: Seq<char>,
    y: Seq<Seq<char>>,
)
    requires
        are_names(p + seq![a] + x),
        are_names(p + seq![b] + y),
        a != ".."@,
        b != ".."@,
        a != b,
    ensures
        path_lt(rooted(p + seq![a] + x), rooted(p + seq![b] + y)) <==> text_lt(a, b),
        path_lt(rooted(p), rooted(p + seq![a] + x)),
{
    let s = p + seq![a] + x;
    let t = p + seq![b] + y;
    assert(are_names(p)) by {
        assert forall|i: int| 0 <= i < p.len() implies is_name(#[trigger] p[i]) by {
            assert(s[i] == p[i]);
            assert(is_name(s[i]));
        }
    }
    path_of_names(s);
    path_of_names(t);
    path_of_names(p);
    let r = seq!["/"@];
    assert(is_name(s[p.len() as int]) && is_name(t[p.len() as int]));
    assert(s[p.len() as int] == a && t[p.len() as int] == b);
    reveal_strlit("/");
    if a == "/"@ {
        assert(a[0] == '/');
    }
    if b == "/"@ {
        assert(b[0] == '/');
    }
    names_ordered(r + p, a, x, b, y);
    assert(r + s =~= (r + p) + seq![a] + x);
    assert(r + t =~= (r + p) + seq![b] + y);
}

proof fn names_ordered(
    p: Seq<Seq<char>>,
    a: Seq<char>,
    x: Seq<Seq<char>>,
    b: Seq<char>,
    y: Seq<Seq<char>>,
)
    requires
        a != b,
        a != "/"@ && a != "."@ && a != ".."@,
        b != "/"@ && b != "."@ && b != ".."@,
    ensures
        components_lt(p + seq![a] + x, p + seq![b] + y) <==> text_lt(a, b),
        components_lt(p, p + seq![a] + x),
    decreases p.len(),
{
    let s = p + seq![a] + x;
    let t = p + seq![b] + y;
    if p.len() > 0 {
        let d = p.drop_first();
        names_ordered(d, a, x, b, y);
        assert(s.drop_first() =~= d + seq![a] + x);
        assert(t.drop_first() =~= d + seq![b] + y);
        assert(s[0] == p[0] && t[0] == p[0]);
    } else {
        assert(s[0] == a && t[0] == b);
    }
}

/// Columns are filled up with spaces to their width; a text that is wider stays whole.
pub proof fn columns_told(s: Seq<char>, n: nat, i: int)
    ensures
        s.len() >= n ==> padded(s, n) == s,
        s.len() <= n ==> padded(s, n).len() == n,
        padded(s, n).len() >= s.len() && padded(s, n).take(s.len() as int) == s,
        s.len() <= i < n ==> padded(s, n)[i] == ' ',
{
    assert(padded(s, n).take(s.len() as int) =~= s);
}

} // verus!
