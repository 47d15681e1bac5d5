//! Which files ignore rules match, whatever the rules and files are.

use vstd::prelude::*;
use vstd::string::*;

use crate::engine::ignore::{
    bare_pattern, component_hits, dockerignore_patterns, glob_body, glob_regex, ignored, included,
    is_exception, pattern_hits, regex_match, stars_end, without_prefixes,
};
use crate::manifest::IgnoreRule;
use crate::path_laws::{are_names, relative_is_rest, rooted, within_by_names};
use crate::paths::{path_within, relative};
use crate::text::{
    ends_with, is_space, join, matches_at, occurs, replaced, split, starts_with, trim_back,
    trim_front, Class,
};
use crate::text_laws::{
    blank, char_at, lacks, one_piece, pieces_apart, snug, trims_around, trims_blank, trims_front,
};

verus! {

/// A text with every character that means something in a regular expression escaped.
pub open spec fn escaped(s: Seq<char>) -> Seq<char>
    decreases s.len(),
{
    if s.len() == 0 {
        Seq::empty()
    } else {
        escaped(s.drop_last()) + (if "\\.+()|^${}[]"@.contains(s.last()) {
            seq!['\\', s.last()]
        } else {
            seq![s.last()]
        })
    }
}

/// Whether a text is the name of a file as a pattern writes it: it starts with none of the
/// signs that mean something there, has no white space at its ends and no slash.
pub open spec fn pattern_name(s: Seq<char>) -> bool {
    snug(s) && lacks(s, '/') && s[0] != '!' && s[0] != '#'
}

/// Whether a text has no wildcard.
pub open spec fn literal(s: Seq<char>) -> bool {
    lacks(s, '*') && lacks(s, '?')
}

/// The end of a run of asterisks is within the text, and the same wherever it starts.
proof fn stars_stop(s: Seq<char>, i: int)
    requires
        0 <= i <= s.len(),
    ensures
        i <= stars_end(s, i) <= s.len(),
        i < s.len() && s[i] == '*' ==> i < stars_end(s, i),
        stars_end(s, i) < s.len() ==> s[stars_end(s, i)] != '*',
    decreases s.len() - i,
{
    if i < s.len() && s[i] == '*' {
        stars_stop(s, i + 1);
    }
}

/// Runs of asterisks in the second of two texts.
proof fn stars_behind(a: Seq<char>, b: Seq<char>, k: int)
    requires
        0 <= k <= b.len(),
    ensures
        stars_end(a + b, a.len() + k) == a.len() + stars_end(b, k),
    decreases b.len() - k,
{
    if k < b.len() {
        assert((a + b)[a.len() + k] == b[k]);
        if b[k] == '*' {
            stars_behind(a, b, k + 1);
        }
    }
}

/// Runs of asterisks in the first of two texts.
proof fn stars_before(a: Seq<char>, b: Seq<char>, k: int)
    requires
        0 <= k <= a.len(),
        a.len() == 0 || b.len() == 0 || a.last() != '*' || b[0] != '*',
        k < a.len() || b.len() == 0 || b[0] != '*',
    ensures
        stars_end(a + b, k) == stars_end(a, k),
    decreases a.len() - k,
{
    if k < a.len() {
        assert((a + b)[k] == a[k]);
        if a[k] == '*' {
            if k + 1 == a.len() {
                assert(a.last() == a[k]);
            }
            stars_before(a, b, k + 1);
        }
    } else if b.len() > 0 {
        assert((a + b)[k] == b[0]);
    }
}

proof fn glob_behind(a: Seq<char>, b: Seq<char>, k: int)
    requires
        0 <= k <= b.len(),
    ensures
        glob_body(a + b, a.len() + k) == glob_body(b, k),
    decreases b.len() - k,
{
    let s = a + b;
    if k < b.len() {
        assert(s[a.len() + k] == b[k]);
        if k + 1 < b.len() {
            assert(s[a.len() + k + 1] == b[k + 1]);
        }
        stars_behind(a, b, k);
        stars_stop(b, k);
        if b[k] == '*' && k + 1 < b.len() && b[k + 1] == '*' {
            glob_behind(a, b, stars_end(b, k));
        } else {
            glob_behind(a, b, k + 1);
        }
    }
}

proof fn glob_before(a: Seq<char>, b: Seq<char>, k: int)
    requires
        0 <= k <= a.len(),
        a.len() == 0 || b.len() == 0 || a.last() != '*' || b[0] != '*',
    ensures
        glob_body(a + b, k) == glob_body(a, k) + glob_body(b, 0),
    decreases a.len() - k,
{
    let s = a + b;
    if k < a.len() {
        assert(s[k] == a[k]);
        if k + 1 < a.len() {
            assert(s[k + 1] == a[k + 1]);
        } else if b.len() > 0 {
            assert(s[k + 1] == b[0]);
            assert(a.last() == a[k]);
        }
        stars_before(a, b, k);
        stars_stop(a, k);
        let next = if a[k] == '*' && k + 1 < a.len() && a[k + 1] == '*' {
            stars_end(a, k)
        } else {
            k + 1
        };
        glob_before(a, b, next);
        assert(glob_body(s, k) =~= glob_body(a, k) + glob_body(b, 0));
    } else {
        glob_behind(a, b, 0);
        assert(glob_body(a, k) + glob_body(b, 0) =~= glob_body(b, 0));
    }
}

/// The regular expression of a glob is made piece by piece, where no run of asterisks is
/// cut: those of two texts, one behind the other, stand one behind the other.
pub proof fn glob_in_pieces(a: Seq<char>, b: Seq<char>)
    requires
        a.len() == 0 || b.len() == 0 || a.last() != '*' || b[0] != '*',
    ensures
        glob_body(a + b, 0) == glob_body(a, 0) + glob_body(b, 0),
        glob_regex(a + b) == seq!['^'] + glob_body(a, 0) + glob_body(b, 0) + seq!['$'],
{
    glob_before(a, b, 0);
    assert(glob_regex(a + b) =~= seq!['^'] + glob_body(a, 0) + glob_body(b, 0) + seq!['$']);
}

/// What each piece of a glob becomes: one asterisk any text without a slash, two or more
/// any text, a question mark one character but a slash, and a text without wildcards
/// itself.
pub proof fn glob_pieces(stars: Seq<char>, text: Seq<char>)
    requires
        stars.len() > 1,
        forall|i: int| 0 <= i < stars.len() ==> #[trigger] stars[i] == '*',
        literal(text),
    ensures
        glob_body("*"@, 0) == "[^/]*"@,
        glob_body("?"@, 0) == "[^/]"@,
        glob_body(stars, 0) == ".*"@,
        glob_body(text, 0) == escaped(text),
        glob_regex(text) == "^"@ + escaped(text) + "$"@,
{
    reveal_strlit("*");
    reveal_strlit("?");
    reveal_strlit("^");
    reveal_strlit("$");
    reveal_strlit(".*");
    reveal_strlit("[^/]*");
    reveal_strlit("[^/]");
    reveal_with_fuel(glob_body, 2);
    stars_stop(stars, 0);
    if stars_end(stars, 0) < stars.len() {
        assert(stars[stars_end(stars, 0)] == '*');
    }
    assert(glob_body(stars, stars.len() as int) =~= Seq::empty());
    assert(glob_body(stars, 0) =~= ".*"@);
    assert(glob_body("*"@, 0) =~= "[^/]*"@);
    assert(glob_body("?"@, 0) =~= "[^/]"@);
    literal_glob(text);
    assert(glob_regex(text) =~= "^"@ + escaped(text) + "$"@);
}

proof fn literal_glob(text: Seq<char>)
    requires
        literal(text),
    ensures
        glob_body(text, 0) == escaped(text),
    decreases text.len(),
{
    if text.len() > 0 {
        let d = text.drop_last();
        let c = text.last();
        assert(text =~= d + seq![c]);
        assert(c == text[text.len() - 1]);
        assert forall|i: int| 0 <= i < d.len() implies #[trigger] d[i] != '*' && d[i] != '?' by {
            assert(d[i] == text[i]);
        }
        literal_glob(d);
        glob_before(d, seq![c], 0);
        reveal_with_fuel(glob_body, 2);
        reveal_strlit("\\.+()|^${}[]");
        let e = "\\.+()|^${}[]"@;
        assert(e.len() == 12);
        assert(e[0] == '\\' && e[1] == '.' && e[2] == '+' && e[3] == '(' && e[4] == ')' && e[5]
            == '|' && e[6] == '^' && e[7] == '$' && e[8] == '{' && e[9] == '}' && e[10] == '['
            && e[11] == ']');
        assert(seq![c][0] == c);
        assert(glob_body(seq![c], 1) =~= Seq::empty());
        assert(glob_body(seq![c], 0) =~= (if e.contains(c) {
            seq!['\\', c]
        } else {
            seq![c]
        }));
    } else {
        assert(glob_body(text, 0) =~= escaped(text));
    }
}

/// A text that does not start with a dot and a slash is taken as it is.
proof fn no_dot_slash(rel: Seq<char>)
    requires
        rel.len() < 2 || rel[0] != '.' || rel[1] != '/',
    ensures
        without_prefixes(rel, "./"@) == rel,
{
    reveal_strlit("./");
    if starts_with(rel, "./"@) {
        let w = rel.subrange(0, 2);
        assert(w[0] == '.' && w[1] == '/');
        assert(rel[0] == w[0] && rel[1] == w[1]);
    }
}

/// A pattern without signs in front is its own core, but for slashes at its end.
proof fn pattern_core(p: Seq<char>)
    requires
        snug(p),
        p[0] != '!',
        p[0] != '/',
        p.last() != '/',
    ensures
        bare_pattern(p) == p,
        bare_pattern(p + "/"@) == p + "/"@,
        trim_back(trim_front(p, Class::Is('/')), Class::Is('/')) == p,
        trim_back(trim_front(p + "/"@, Class::Is('/')), Class::Is('/')) == p,
        !ends_with(p, "/"@),
        ends_with(p + "/"@, "/"@),
{
    reveal_strlit("!");
    reveal_strlit("/");
    assert("!"@ =~= seq!['!']);
    assert("/"@ =~= seq!['/']);
    let e = Seq::<char>::empty();
    let d = p + "/"@;
    assert(e + p + e =~= p);
    assert(e + d + e =~= d);
    assert(d.last() == '/');
    assert(d[0] == p[0]);
    trims_around(e, p, e);
    trims_around(e, d, e);
    char_at(p, '!', 0);
    char_at(d, '!', 0);
    char_at(p, '/', p.len() - 1);
    char_at(d, '/', d.len() - 1);
    assert(d.drop_last() =~= p);
    reveal_with_fuel(trim_back, 2);
}

/// The rule of a name, and that of the name and a slash, on any path.
proof fn name_rules(name: Seq<char>, rel: Seq<char>)
    requires
        pattern_name(name),
        rel.len() < 2 || rel[0] != '.' || rel[1] != '/',
    ensures
        pattern_hits(name, rel) == component_hits(rel, name),
        pattern_hits(name + "/"@, rel) == (rel == name || starts_with(rel, name + "/"@)
            || component_hits(rel, name)),
{
    no_dot_slash(rel);
    assert(name[0] != '/');
    assert(name[name.len() - 1] != '/');
    pattern_core(name);
    reveal_strlit("#");
    reveal_strlit("/");
    assert("#"@ =~= seq!['#']);
    assert("/"@ =~= seq!['/']);
    char_at(name, '#', 0);
    char_at(name + "/"@, '#', 0);
    assert((name + "/"@)[0] == name[0]);
    if occurs(name, "/"@) {
        let i = choose|i: int| matches_at(name, "/"@, i);
        char_at(name, '/', i);
    }
}

/// The rule made of a name and a slash matches every path that the rule made of the bare
/// name matches; besides, it matches just the path that is the name and what lies below.
pub proof fn slash_keeps_matches(name: Seq<char>, rel: Seq<char>)
    requires
        pattern_name(name),
        rel.len() < 2 || rel[0] != '.' || rel[1] != '/',
    ensures
        pattern_hits(name, rel) ==> pattern_hits(name + "/"@, rel),
        pattern_hits(name + "/"@, rel) ==> pattern_hits(name, rel) || rel == name || (rel.len()
            > name.len() && rel.take(name.len() as int) == name && rel[name.len() as int] == '/'),
{
    name_rules(name, rel);
    reveal_strlit("/");
    if starts_with(rel, name + "/"@) {
        let w = rel.subrange(0, (name.len() + 1) as int);
        assert(w[name.len() as int] == '/');
        assert(rel.take(name.len() as int) =~= w.take(name.len() as int));
        assert(w.take(name.len() as int) =~= name);
    }
}

/// A name without slash or wildcard, as a component of a path at any depth, is matched by
/// the rule made of it, and by that made of it and a slash, given that the regular
/// expression of its letters alone matches them.
pub proof fn name_matched_anywhere(
    name: Seq<char>,
    before: Seq<char>,
    behind: Seq<char>,
    rel: Seq<char>,
)
    requires
        pattern_name(name),
        literal(name),
        regex_match("^"@ + escaped(name) + "$"@, name) == Some(true),
        rel == name || rel == name + "/"@ + behind || rel == before + "/"@ + name || rel == before
            + "/"@ + name + "/"@ + behind,
        rel.len() < 2 || rel[0] != '.' || rel[1] != '/',
    ensures
        pattern_hits(name, rel),
        pattern_hits(name + "/"@, rel),
{
    name_rules(name, rel);
    glob_pieces(seq!['*', '*'], name);
    reveal_strlit("/");
    assert("/"@ =~= seq!['/']);
    let p = split(rel, "/"@);
    one_piece(name, '/');
    let a = split(before, "/"@);
    if rel == name {
        assert(p[0] == name);
    } else if rel == name + "/"@ + behind {
        pieces_apart(name, '/', behind);
        assert(p[0] == name);
    } else if rel == before + "/"@ + name {
        pieces_apart(before, '/', name);
        assert(p[a.len() as int] == name);
    } else {
        assert(rel =~= before + "/"@ + (name + "/"@ + behind));
        pieces_apart(before, '/', name + "/"@ + behind);
        pieces_apart(name, '/', behind);
        assert(p[a.len() as int] == name);
    }
}

/// A rule made of a name matches a path only where the glob of the name matches one of
/// the names that the path is made of.
pub proof fn name_matches_names(name: Seq<char>, names: Seq<Seq<char>>)
    requires
        pattern_name(name),
        are_names(names),
        names.len() > 0,
    ensures
        pattern_hits(name, join(names, "/"@)) <==> exists|i: int|
            0 <= i < names.len() && regex_match(glob_regex(name), #[trigger] names[i]) == Some(
                true,
            ),
{
    reveal_strlit("/");
    reveal_strlit(".");
    assert("/"@ =~= seq!['/']);
    assert forall|i: int| 0 <= i < names.len() implies lacks(#[trigger] names[i], '/') by {
        assert(crate::path_laws::is_name(names[i]));
    }
    crate::text_laws::joined_pieces(names, '/');
    let rel = join(names, "/"@);
    if rel.len() >= 2 && rel[0] == '.' && rel[1] == '/' {
        let rest = rel.skip(2);
        assert(rel =~= seq!['.'] + seq!['/'] + rest);
        pieces_apart(seq!['.'], '/', rest);
        one_piece(seq!['.'], '/');
        assert(split(rel, "/"@)[0] == seq!['.']);
        assert(names[0] =~= "."@);
        assert(crate::path_laws::is_name(names[0]));
    }
    name_rules(name, rel);
}

/// A rule that ends in a slash matches the path before the slash and all that lies below
/// it, whatever wildcards mean.
pub proof fn directory_matched(dir: Seq<char>, behind: Seq<char>)
    requires
        snug(dir),
        dir[0] != '!',
        dir[0] != '#',
        dir[0] != '/',
        dir.last() != '/',
        dir.len() < 2 || dir[0] != '.' || dir[1] != '/',
        dir != "."@,
    ensures
        pattern_hits(dir + "/"@, dir),
        pattern_hits(dir + "/"@, dir + "/"@ + behind),
{
    pattern_core(dir);
    reveal_strlit("#");
    reveal_strlit("/");
    reveal_strlit(".");
    assert("#"@ =~= seq!['#']);
    char_at(dir + "/"@, '#', 0);
    assert((dir + "/"@)[0] == dir[0]);
    no_dot_slash(dir);
    let rel = dir + "/"@ + behind;
    if dir.len() == 1 && dir[0] == '.' {
        assert(dir =~= "."@);
    }
    assert(rel[0] == dir[0]);
    if dir.len() > 1 {
        assert(rel[1] == dir[1]);
    }
    no_dot_slash(rel);
    assert(rel.subrange(0, (dir + "/"@).len() as int) =~= dir + "/"@);
}

/// A rule with a slash inside matches a path just where its glob matches the whole path.
pub proof fn whole_path_matched(a: Seq<char>, b: Seq<char>, rel: Seq<char>)
    requires
        snug(a + "/"@ + b),
        a.len() > 0,
        b.len() > 0,
        a[0] != '!',
        a[0] != '#',
        a[0] != '/',
        b.last() != '/',
        rel.len() < 2 || rel[0] != '.' || rel[1] != '/',
    ensures
        pattern_hits(a + "/"@ + b, rel) <==> regex_match(glob_regex(a + "/"@ + b), rel) == Some(
            true,
        ),
{
    let p = a + "/"@ + b;
    reveal_strlit("#");
    reveal_strlit("/");
    assert("#"@ =~= seq!['#']);
    assert("/"@ =~= seq!['/']);
    assert(p[0] == a[0]);
    assert(p.last() == b.last());
    pattern_core(p);
    no_dot_slash(rel);
    char_at(p, '#', 0);
    char_at(p, '/', a.len() as int);
    assert(p[a.len() as int] == '/');
    assert(matches_at(p, "/"@, a.len() as int));
}

/// White space around a rule means nothing, nor does an exclamation mark before it for
/// what it matches, nor a slash before it.
#[verifier::rlimit(40)]
pub proof fn decorations_match_alike(
    p: Seq<char>,
    left: Seq<char>,
    right: Seq<char>,
    rel: Seq<char>,
)
    requires
        snug(p),
        p[0] != '!',
        blank(left),
        blank(right),
    ensures
        pattern_hits(left + p + right, rel) == pattern_hits(p, rel),
        pattern_hits("!"@ + p, rel) == pattern_hits(p, rel),
        pattern_hits("!"@ + left + p, rel) == pattern_hits(p, rel),
        p[0] != '#' ==> pattern_hits("/"@ + p, rel) == pattern_hits(p, rel),
        pattern_hits(p, "./"@ + rel) == pattern_hits(p, rel),
{
    reveal_strlit("!");
    reveal_strlit("/");
    reveal_strlit("./");
    reveal_strlit("#");
    assert("!"@ =~= seq!['!']);
    assert("/"@ =~= seq!['/']);
    assert("#"@ =~= seq!['#']);
    let e = Seq::<char>::empty();
    assert(e + p + e =~= p);
    trims_around(e, p, e);
    trims_around(left, p, right);
    char_at(p, '!', 0);
    assert(bare_pattern(left + p + right) == bare_pattern(p));
    assert(bare_pattern(p) == p);
    let x = "!"@ + p;
    assert(x.last() == p.last() && x[0] == '!');
    assert(e + x + e =~= x);
    trims_around(e, x, e);
    char_at(x, '!', 0);
    assert(x.skip(1) =~= p);
    trims_front(e, p);
    assert(e + p =~= p);
    assert(bare_pattern(x) == p);
    let y = "!"@ + left + p;
    assert(y.last() == p.last() && y[0] == '!');
    assert(e + y + e =~= y);
    trims_around(e, y, e);
    char_at(y, '!', 0);
    assert(y.skip(1) =~= left + p);
    trims_front(left, p);
    assert(bare_pattern(y) == p);
    if p[0] != '#' {
        let z = "/"@ + p;
        assert(z.last() == p.last() && z[0] == '/');
        assert(e + z + e =~= z);
        trims_around(e, z, e);
        char_at(z, '!', 0);
        char_at(z, '#', 0);
        char_at(p, '#', 0);
        assert(z.drop_first() =~= p);
        assert(trim_front(z, Class::Is('/')) == trim_front(p, Class::Is('/')));
        char_at(z, '/', z.len() - 1);
        char_at(p, '/', p.len() - 1);
    }
    let r = "./"@ + rel;
    assert(r.subrange(0, 2) =~= "./"@);
    assert(r.skip(2) =~= rel);
    assert(without_prefixes(r, "./"@) == without_prefixes(rel, "./"@));
}

/// Comments, empty rules and slashes alone match nothing.
pub proof fn comments_match_nothing(left: Seq<char>, text: Seq<char>, rel: Seq<char>)
    requires
        blank(left),
    ensures
        !pattern_hits(left, rel),
        text.len() > 0 && !is_space(text.last()) ==> !pattern_hits(left + "#"@ + text, rel),
        !pattern_hits("/"@, rel),
        !pattern_hits("!"@, rel),
{
    reveal_strlit("!");
    reveal_strlit("/");
    reveal_strlit("#");
    assert("!"@ =~= seq!['!']);
    assert("/"@ =~= seq!['/']);
    assert("#"@ =~= seq!['#']);
    let e = Seq::<char>::empty();
    trims_blank(left);
    char_at(e, '!', 0);
    if text.len() > 0 && !is_space(text.last()) {
        let c = "#"@ + text;
        assert(c[0] == '#' && c.last() == text.last());
        trims_around(left, c, e);
        assert(left + "#"@ + text =~= left + c + e);
        char_at(c, '!', 0);
        char_at(c, '#', 0);
    }
    assert(e + "/"@ + e =~= "/"@);
    trims_around(e, "/"@, e);
    char_at("/"@, '!', 0);
    char_at("/"@, '#', 0);
    assert("/"@.drop_first() =~= e);
    reveal_with_fuel(trim_front, 3);
    assert(trim_front("/"@, Class::Is('/')) =~= e);
    assert(e + "!"@ + e =~= "!"@);
    trims_around(e, "!"@, e);
    char_at("!"@, '!', 0);
    assert("!"@.skip(1) =~= e);
    assert(trim_front(e, Class::Space) =~= e);
}

/// A text without a character is left as it is when the character is replaced.
pub proof fn nothing_replaced(s: Seq<char>, c: char, with: Seq<char>)
    requires
        lacks(s, c),
    ensures
        replaced(s, c, with) == s,
    decreases s.len(),
{
    if s.len() > 0 {
        assert(s.last() == s[s.len() - 1]);
        assert forall|i: int| 0 <= i < s.drop_last().len() implies #[trigger] s.drop_last()[i]
            != c by {
            assert(s.drop_last()[i] == s[i]);
        }
        nothing_replaced(s.drop_last(), c, with);
        assert(s.drop_last().push(s.last()) =~= s);
    } else {
        assert(s =~= Seq::empty());
    }
}

/// A rule speaks of the paths below its directory, by their names from there on, and of
/// no others.
pub proof fn rule_below_base(base: Seq<Seq<char>>, rest: Seq<Seq<char>>, rule: IgnoreRule)
    requires
        are_names(base),
        are_names(rest),
        rule.base@ == rooted(base),
        lacks(join(rest, "/"@), '\\'),
    ensures
        ignored(rooted(base + rest), seq![rule]) <==> pattern_hits(
            rule.pattern@,
            join(rest, "/"@),
        ) && !is_exception(rule),
        base.len() > 0 && rest.len() < base.len() ==> !ignored(rooted(rest), seq![rule]),
        rest.len() >= base.len() && rest.take(base.len() as int) != base ==> !ignored(
            rooted(rest),
            seq![rule],
        ),
{
    relative_is_rest(base, rest);
    nothing_replaced(join(rest, "/"@), '\\', "/"@);
    within_by_names(rest, base);
    reveal_with_fuel(ignored, 2);
    assert(seq![rule].last() == rule);
    assert(seq![rule].drop_last() =~= Seq::empty());
}

/// Whether a rule matches a path: the path lies below the directory of the rule, and the
/// pattern matches what it is from there on.
pub open spec fn applies(path: Seq<char>, rule: IgnoreRule) -> bool {
    path_within(path, rule.base@) && pattern_hits(
        rule.pattern@,
        replaced(relative(path, rule.base@)->0, '\\', "/"@),
    )
}

/// The last rule that matches decides: what it says stands whatever the others say, and
/// where none matches the path is not ignored.
pub proof fn last_rule_decides(path: Seq<char>, rules: Seq<IgnoreRule>, k: int)
    requires
        -1 <= k < rules.len(),
        forall|i: int| k < i < rules.len() ==> !applies(path, #[trigger] rules[i]),
        k >= 0 ==> applies(path, rules[k]),
    ensures
        k == -1 ==> !ignored(path, rules),
        k >= 0 && rules[k].pattern@.len() > 0 && rules[k].pattern@[0] == '!' ==> !ignored(
            path,
            rules,
        ),
        k >= 0 && rules[k].pattern@.len() > 0 && rules[k].pattern@[0] != '!' && !is_space(
            rules[k].pattern@[0],
        ) ==> ignored(path, rules),
    decreases rules.len(),
{
    reveal_strlit("!");
    assert("!"@ =~= seq!['!']);
    if rules.len() > 0 {
        let last = rules.last();
        assert(last == rules[rules.len() - 1]);
        if k == rules.len() - 1 {
            let p = last.pattern@;
            if p.len() > 0 {
                char_at(p, '!', 0);
                char_at(trim_front(p, Class::Space), '!', 0);
            }
        } else {
            let d = rules.drop_last();
            assert forall|i: int| k < i < d.len() implies !applies(path, #[trigger] d[i]) by {
                assert(d[i] == rules[i]);
            }
            if k >= 0 {
                assert(d[k] == rules[k]);
            }
            last_rule_decides(path, d, k);
            assert(!applies(path, last));
        }
    }
}

/// A rule that is taken back by the same pattern behind an exclamation mark ignores
/// nothing; put in again behind that, it does.
pub proof fn exception_takes_back(
    path: Seq<char>,
    rules: Seq<IgnoreRule>,
    rule: IgnoreRule,
    taken_back: IgnoreRule,
)
    requires
        snug(rule.pattern@),
        rule.pattern@[0] != '!',
        taken_back.base@ == rule.base@,
        taken_back.pattern@ == "!"@ + rule.pattern@,
        applies(path, rule),
    ensures
        ignored(path, rules.push(rule)),
        !ignored(path, rules.push(rule).push(taken_back)),
        ignored(path, rules.push(taken_back).push(rule)),
{
    let e = Seq::<char>::empty();
    reveal_strlit("!");
    decorations_match_alike(
        rule.pattern@,
        e,
        e,
        replaced(relative(path, rule.base@)->0, '\\', "/"@),
    );
    last_rule_decides(path, rules.push(rule), rules.len() as int);
    last_rule_decides(path, rules.push(rule).push(taken_back), (rules.len() + 1) as int);
    last_rule_decides(path, rules.push(taken_back).push(rule), (rules.len() + 1) as int);
}

/// A file of a build context is left out where it is ignored; where only some paths are
/// asked for, it is also left out unless it is one of them, lies below one or leads to
/// one. All others are included.
pub proof fn included_where_asked(
    rel: Seq<char>,
    resolved: Seq<char>,
    rules: Seq<IgnoreRule>,
    only: Seq<Seq<char>>,
    k: int,
)
    ensures
        ignored(resolved, rules) ==> !included(rel, resolved, rules, only),
        !ignored(resolved, rules) && only.len() == 0 ==> included(rel, resolved, rules, only),
        !ignored(resolved, rules) && 0 <= k < only.len() && (path_within(rel, only[k])
            || path_within(only[k], rel)) ==> included(rel, resolved, rules, only),
        only.len() > 0 && (forall|i: int|
            0 <= i < only.len() ==> !path_within(rel, #[trigger] only[i]) && !path_within(
                only[i],
                rel,
            )) ==> !included(rel, resolved, rules, only),
{
    if 0 <= k < only.len() && (path_within(rel, only[k]) || path_within(only[k], rel)) {
        assert(crate::engine::ignore::selected(rel, only[k]));
    }
}

/// The patterns of a `.dockerignore` file are its lines without the white space around
/// them, in order, but for empty ones and comments.
pub proof fn dockerignore_lines(
    a: Seq<Seq<char>>,
    b: Seq<Seq<char>>,
    left: Seq<char>,
    p: Seq<char>,
    right: Seq<char>,
)
    requires
        blank(left),
        blank(right),
        snug(p),
    ensures
        dockerignore_patterns(a + b) == dockerignore_patterns(a) + dockerignore_patterns(b),
        dockerignore_patterns(seq![left]) == Seq::<Seq<char>>::empty(),
        p[0] == '#' ==> dockerignore_patterns(seq![left + p + right]) == Seq::<Seq<char>>::empty(),
        p[0] != '#' ==> dockerignore_patterns(seq![left + p + right]) == seq![p],
    decreases b.len(),
{
    reveal_strlit("#");
    assert("#"@ =~= seq!['#']);
    reveal_with_fuel(dockerignore_patterns, 2);
    trims_around(left, p, right);
    trims_blank(left);
    char_at(p, '#', 0);
    assert(seq![left].drop_last() =~= Seq::empty());
    assert(seq![left + p + right].drop_last() =~= Seq::empty());
    assert(Seq::<Seq<char>>::empty().push(p) =~= seq![p]);
    if b.len() > 0 {
        assert((a + b).drop_last() =~= a + b.drop_last());
        assert((a + b).last() == b.last());
        dockerignore_lines(a, b.drop_last(), left, p, right);
        assert(dockerignore_patterns(a + b) =~= dockerignore_patterns(a) + dockerignore_patterns(
            b,
        ));
    } else {
        assert(a + b =~= a);
        assert(dockerignore_patterns(a) + dockerignore_patterns(b) =~= dockerignore_patterns(a));
    }
}

proof fn signs_replaced(s: Seq<char>, c: char, d: char, i: int)
    ensures
        replaced(s, c, seq![d]).len() == s.len(),
        0 <= i < s.len() ==> replaced(s, c, seq![d])[i] == (if s[i] == c {
            d
        } else {
            s[i]
        }),
    decreases s.len(),
{
    if s.len() > 0 {
        signs_replaced(s.drop_last(), c, d, i);
    }
}

/// A rule reads the backslashes of a path as slashes.
pub proof fn backslashes_are_slashes(
    base: Seq<Seq<char>>,
    rest: Seq<Seq<char>>,
    rule: IgnoreRule,
    text: Seq<char>,
)
    requires
        are_names(base),
        are_names(rest),
        rule.base@ == rooted(base),
        text.len() == join(rest, "/"@).len(),
        forall|i: int|
            0 <= i < text.len() ==> #[trigger] text[i] == (if join(rest, "/"@)[i] == '\\' {
                '/'
            } else {
                join(rest, "/"@)[i]
            }),
    ensures
        ignored(rooted(base + rest), seq![rule]) <==> pattern_hits(rule.pattern@, text)
            && !is_exception(rule),
{
    relative_is_rest(base, rest);
    let s = join(rest, "/"@);
    reveal_strlit("/");
    assert("/"@ =~= seq!['/']);
    let r = replaced(s, '\\', "/"@);
    signs_replaced(s, '\\', '/', 0);
    assert forall|i: int| 0 <= i < r.len() implies r[i] == text[i] by {
        signs_replaced(s, '\\', '/', i);
    }
    assert(r =~= text);
    reveal_with_fuel(ignored, 2);
    assert(seq![rule].last() == rule);
    assert(seq![rule].drop_last() =~= Seq::empty());
}

/// An exclamation mark makes a rule an exception, with white space before it or not.
pub proof fn exceptions_told(rule: IgnoreRule, left: Seq<char>, p: Seq<char>)
    requires
        blank(left),
        p.len() > 0,
        !is_space(p[0]),
        rule.pattern@ == left + p,
    ensures
        is_exception(rule) <==> p[0] == '!',
{
    reveal_strlit("!");
    assert("!"@ =~= seq!['!']);
    trims_front(left, p);
    char_at(p, '!', 0);
}

} // verus!
