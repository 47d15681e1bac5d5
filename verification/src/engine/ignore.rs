//! Which changed files and which files of a build context count.

use vstd::prelude::*;
use vstd::string::*;

use crate::manifest::IgnoreRule;
use crate::paths::{is_within, join_path, joined_path, path_within, relative, relative_to};
use crate::text::{
    begins, cat, chars_of, ends, ends_with, has, lines, lines_of, occurs, owned, pieces, replace,
    replaced, same, split, starts_with, strip_prefix, texts, trim, trim_back, trim_front, trimmed,
    trimmed_back, trimmed_front, without_prefix, Class,
};

verus! {

/// What `regex::Regex::new` and `Regex::is_match` make of a pattern and a text:
/// whether the pattern matches somewhere in the text, nothing where the pattern
/// is not a regular expression.
pub uninterp spec fn regex_match(pattern: Seq<char>, text: Seq<char>) -> Option<bool>;

/// `regex::Regex::new` on the pattern, then `Regex::is_match` on the text. Nothing
/// is said of the syntax and meaning of patterns.
#[verifier::external_body]
fn regex_is_match(pattern: &str, text: &str) -> (r: Option<bool>)
    ensures
        r == regex_match(pattern@, text@),
{
    match regex::Regex::new(pattern) {
        Ok(re) => Some(re.is_match(text)),
        Err(_) => None,
    }
}

/// Whether the character means something in a regular expression, and is not one
/// of the wildcards.
pub open spec fn needs_escape(c: char) -> bool {
    c == '.' || c == '+' || c == '(' || c == ')' || c == '|' || c == '^' || c == '$' || c == '{'
        || c == '}' || c == '[' || c == ']' || c == '\\'
}

/// The index behind the asterisks that stand from index `i` on.
pub open spec fn stars_end(s: Seq<char>, i: int) -> int
    decreases s.len() - i,
{
    if 0 <= i < s.len() && s[i] == '*' {
        stars_end(s, i + 1)
    } else {
        i
    }
}

/// The regular expression for the part of a glob from index `i` on: a run of
/// asterisks stands for any text, a single one and a question mark for any and
/// for one character but a slash.
pub open spec fn glob_body(s: Seq<char>, i: int) -> Seq<char>
    decreases s.len() - i,
{
    if i < 0 || i >= s.len() {
        Seq::empty()
    } else if s[i] == '*' && i + 1 < s.len() && s[i + 1] == '*' {
        if i < stars_end(s, i) <= s.len() {
            ".*"@ + glob_body(s, stars_end(s, i))
        } else {
            Seq::empty()
        }
    } else if s[i] == '*' {
        "[^/]*"@ + glob_body(s, i + 1)
    } else if s[i] == '?' {
        "[^/]"@ + glob_body(s, i + 1)
    } else if needs_escape(s[i]) {
        seq!['\\', s[i]] + glob_body(s, i + 1)
    } else {
        seq![s[i]] + glob_body(s, i + 1)
    }
}

/// The regular expression for a glob.
pub open spec fn glob_regex(pattern: Seq<char>) -> Seq<char> {
    seq!['^'] + glob_body(pattern, 0) + seq!['$']
}

/// Whether a glob matches a whole text.
pub open spec fn glob_hits(pattern: Seq<char>, text: Seq<char>) -> bool {
    regex_match(glob_regex(pattern), text) == Some(true)
}

fn escaped(c: char) -> (r: bool)
    ensures
        r == needs_escape(c),
{
    c == '.' || c == '+' || c == '(' || c == ')' || c == '|' || c == '^' || c == '$' || c == '{'
        || c == '}' || c == '[' || c == ']' || c == '\\'
}

/// The asterisks that stand from an index on end behind it.
proof fn stars_end_bounds(s: Seq<char>, i: int)
    requires
        0 <= i <= s.len(),
    ensures
        i <= stars_end(s, i) <= s.len(),
        i < s.len() && s[i] == '*' ==> i < stars_end(s, i),
    decreases s.len() - i,
{
    if i < s.len() && s[i] == '*' {
        stars_end_bounds(s, i + 1);
    }
}

/// The regular expression for a glob.
pub fn glob_to_regex(pattern: &str) -> (r: String)
    ensures
        r@ == glob_regex(pattern@),
{
    let cs = chars_of(pattern);
    let mut r: String = String::new();
    r.push('^');
    let mut i: usize = 0;
    proof {
        reveal_strlit(".*");
        reveal_strlit("[^/]*");
        reveal_strlit("[^/]");
        assert(seq!['^'] + glob_body(cs@, 0) =~= r@ + glob_body(cs@, 0));
    }
    while i < cs.len()
        invariant
            i <= cs@.len(),
            cs@ == pattern@,
            seq!['^'] + glob_body(pattern@, 0) == r@ + glob_body(cs@, i as int),
        decreases cs@.len() - i,
    {
        let ghost before = r@;
        let c = cs[i];
        if c == '*' && i + 1 < cs.len() && cs[i + 1] == '*' {
            let ghost end = stars_end(cs@, i as int);
            proof {
                stars_end_bounds(cs@, i as int);
            }
            let start: usize = i;
            while i < cs.len() && cs[i] == '*'
                invariant
                    start <= i <= cs@.len(),
                    stars_end(cs@, i as int) == end,
                decreases cs@.len() - i,
            {
                i += 1;
            }
            r.append(".*");
            assert(before + (".*"@ + glob_body(cs@, end)) =~= r@ + glob_body(cs@, end));
        } else {
            if c == '*' {
                r.append("[^/]*");
                assert(before + ("[^/]*"@ + glob_body(cs@, i + 1)) =~= r@ + glob_body(
                    cs@,
                    i + 1,
                ));
            } else if c == '?' {
                r.append("[^/]");
                assert(before + ("[^/]"@ + glob_body(cs@, i + 1)) =~= r@ + glob_body(
                    cs@,
                    i + 1,
                ));
            } else if escaped(c) {
                r.push('\\');
                r.push(c);
                assert(before + (seq!['\\', c] + glob_body(cs@, i + 1)) =~= r@ + glob_body(
                    cs@,
                    i + 1,
                ));
            } else {
                r.push(c);
                assert(before + (seq![c] + glob_body(cs@, i + 1)) =~= r@ + glob_body(cs@, i + 1));
            }
            i += 1;
        }
    }
    assert(r@ + glob_body(cs@, i as int) =~= r@);
    let ghost before = r@;
    r.push('$');
    assert(r@ =~= before + seq!['$']);
    r
}

/// Whether a glob matches a whole text.
pub fn glob_match(pattern: &str, text: &str) -> (r: bool)
    ensures
        r == glob_hits(pattern@, text@),
{
    let regex = glob_to_regex(pattern);
    match regex_is_match(regex.as_str(), text) {
        Some(hit) => hit,
        None => false,
    }
}

/// Whether a glob matches a component of a relative path.
pub open spec fn component_hits(rel: Seq<char>, pattern: Seq<char>) -> bool {
    exists|i: int|
        0 <= i < split(rel, "/"@).len() && glob_hits(pattern, #[trigger] split(rel, "/"@)[i])
}

/// Whether a glob matches a component of a relative path.
pub fn path_component_matches(rel: &str, pattern: &str) -> (r: bool)
    ensures
        r == component_hits(rel@, pattern@),
{
    proof {
        reveal_strlit("/");
    }
    let parts = pieces(rel, "/");
    let mut i: usize = 0;
    while i < parts.len()
        invariant
            i <= parts@.len(),
            texts(parts@) == split(rel@, "/"@),
            forall|j: int| 0 <= j < i ==> !glob_hits(pattern@, #[trigger] split(rel@, "/"@)[j]),
        decreases parts@.len() - i,
    {
        assert(split(rel@, "/"@)[i as int] == parts@[i as int]@);
        if glob_match(pattern, parts[i].as_str()) {
            return true;
        }
        i += 1;
    }
    false
}

/// The text without any number of leading occurrences of the prefix.
pub open spec fn without_prefixes(s: Seq<char>, p: Seq<char>) -> Seq<char>
    decreases s.len(),
{
    if p.len() > 0 && starts_with(s, p) {
        without_prefixes(s.skip(p.len() as int), p)
    } else {
        s
    }
}

fn strip_prefixes(s: &str, p: &str) -> (r: String)
    requires
        p@.len() > 0,
    ensures
        r@ == without_prefixes(s@, p@),
    decreases s@.len(),
{
    match strip_prefix(s, p) {
        Some(t) => strip_prefixes(t.as_str(), p),
        None => owned(s),
    }
}

/// The pattern of an ignore rule without white space, the mark of an exception,
/// and white space behind that.
pub open spec fn bare_pattern(pattern: Seq<char>) -> Seq<char> {
    match without_prefix(trim(pattern), "!"@) {
        Some(rest) => trim_front(rest, Class::Space),
        None => trim(pattern),
    }
}

/// Whether the pattern of an ignore rule matches a relative path. A pattern that
/// ends in a slash matches the directory, what is below it, and what has a
/// component of its name; one with a slash inside matches the whole path, any
/// other a component.
pub open spec fn pattern_hits(pattern: Seq<char>, rel: Seq<char>) -> bool {
    let bare = bare_pattern(pattern);
    let core = trim_back(trim_front(bare, Class::Is('/')), Class::Is('/'));
    let path = without_prefixes(rel, "./"@);
    if bare.len() == 0 || starts_with(bare, "#"@) || core.len() == 0 {
        false
    } else if ends_with(bare, "/"@) {
        path == core || starts_with(path, core + "/"@) || component_hits(path, core)
    } else if occurs(core, "/"@) {
        glob_hits(core, path)
    } else {
        component_hits(path, core)
    }
}

/// Whether the pattern of an ignore rule matches a relative path.
pub fn ignore_pattern_matches(pattern: &str, rel: &str) -> (r: bool)
    ensures
        r == pattern_hits(pattern@, rel@),
{
    let trimmed_pattern = trimmed(pattern);
    let bare: String = match strip_prefix(trimmed_pattern.as_str(), "!") {
        Some(rest) => trimmed_front(rest.as_str(), Class::Space),
        None => trimmed_pattern,
    };
    if bare.as_str().is_empty() || begins(bare.as_str(), "#") {
        return false;
    }
    let dir_only = ends(bare.as_str(), "/");
    let core = trimmed_back(trimmed_front(bare.as_str(), Class::Is('/')).as_str(), Class::Is('/'));
    if core.as_str().is_empty() {
        return false;
    }
    proof {
        reveal_strlit("./");
    }
    let path = strip_prefixes(rel, "./");
    if dir_only {
        return same(path.as_str(), core.as_str()) || begins(
            path.as_str(),
            cat(core.as_str(), "/").as_str(),
        ) || path_component_matches(path.as_str(), core.as_str());
    }
    if has(core.as_str(), "/") {
        glob_match(core.as_str(), path.as_str())
    } else {
        path_component_matches(path.as_str(), core.as_str())
    }
}

/// Whether a rule matches a path; its pattern is taken below its directory.
pub open spec fn rule_hits(path: Seq<char>, rule: IgnoreRule) -> bool {
    match relative(path, rule.base@) {
        Some(rel) => pattern_hits(rule.pattern@, replaced(rel, '\\', "/"@)),
        None => false,
    }
}

/// Whether a rule makes an exception.
pub open spec fn is_exception(rule: IgnoreRule) -> bool {
    starts_with(trim_front(rule.pattern@, Class::Space), "!"@)
}

/// Whether the rules ignore a path: the last one that matches decides.
pub open spec fn ignored(path: Seq<char>, rules: Seq<IgnoreRule>) -> bool
    decreases rules.len(),
{
    if rules.len() == 0 {
        false
    } else if rule_hits(path, rules.last()) {
        !is_exception(rules.last())
    } else {
        ignored(path, rules.drop_last())
    }
}

/// Whether the rules ignore a path. The path and the directories of the rules are
/// taken as they are: links in them have to be resolved before.
pub fn is_ignored_by_rules(path: &str, rules: &Vec<IgnoreRule>) -> (r: bool)
    ensures
        r == ignored(path@, rules@),
{
    let mut out = false;
    let mut i: usize = 0;
    assert(rules@.take(0).len() == 0);
    while i < rules.len()
        invariant
            i <= rules@.len(),
            out == ignored(path@, rules@.take(i as int)),
        decreases rules@.len() - i,
    {
        proof {
            assert(rules@.take(i + 1).drop_last() =~= rules@.take(i as int));
            assert(rules@.take(i + 1).last() == rules@[i as int]);
        }
        let rule = &rules[i];
        if let Some(rel) = relative_to(path, rule.base.as_str()) {
            let rel = replace(rel.as_str(), '\\', "/");
            if ignore_pattern_matches(rule.pattern.as_str(), rel.as_str()) {
                out = !begins(trimmed_front(rule.pattern.as_str(), Class::Space).as_str(), "!");
            }
        }
        i += 1;
    }
    assert(rules@.take(i as int) =~= rules@);
    out
}

/// Whether a path is one of the candidates or lies below one.
pub open spec fn hits_any(path: Seq<char>, candidates: Seq<Seq<char>>) -> bool {
    exists|i: int| 0 <= i < candidates.len() && path_within(path, #[trigger] candidates[i])
}

/// Whether a path is one of the candidates or lies below one.
pub fn matches_any_path(path: &str, candidates: &Vec<String>) -> (r: bool)
    ensures
        r == hits_any(path@, texts(candidates@)),
{
    let mut i: usize = 0;
    while i < candidates.len()
        invariant
            i <= candidates@.len(),
            forall|j: int|
                0 <= j < i ==> !path_within(path@, #[trigger] texts(candidates@)[j]),
        decreases candidates@.len() - i,
    {
        assert(texts(candidates@)[i as int] == candidates@[i as int]@);
        if is_within(path, candidates[i].as_str()) {
            return true;
        }
        i += 1;
    }
    false
}

/// Whether a path and one of a selection lie on one line of the tree.
pub open spec fn selected(path: Seq<char>, only: Seq<char>) -> bool {
    path_within(path, only) || path_within(only, path)
}

/// Whether a path is selected: it is the given one, lies below it, or leads to it.
pub fn path_is_selected_by_only(path: &str, only: &str) -> (r: bool)
    ensures
        r == selected(path@, only@),
{
    is_within(path, only) || is_within(only, path)
}

/// The path of a file of a build context, given its path below the root.
pub fn context_path(root: &str, rel: &str) -> (r: String)
    ensures
        r@ == join_path(root@, replaced(rel@, '\\', "/"@)),
{
    joined_path(root, replace(rel, '\\', "/").as_str())
}

/// Whether a file of a build context is included: selected by its path below the root,
/// where there is a selection, and not ignored by its path with the links resolved.
pub open spec fn included(
    rel: Seq<char>,
    resolved: Seq<char>,
    rules: Seq<IgnoreRule>,
    only: Seq<Seq<char>>,
) -> bool {
    &&& only.len() == 0 || exists|i: int|
        0 <= i < only.len() && selected(rel, #[trigger] only[i])
    &&& !ignored(resolved, rules)
}

/// Whether a file of a build context is included, given its path below the root, and its
/// whole path with the links in it resolved. The links in the directories of the rules
/// are resolved too.
pub fn build_context_included(
    rel: &str,
    resolved: &str,
    ignore_rules: &Vec<IgnoreRule>,
    only: &Vec<String>,
) -> (r: bool)
    ensures
        r == included(rel@, resolved@, ignore_rules@, texts(only@)),
{
    if only.len() > 0 {
        let mut chosen = false;
        let mut i: usize = 0;
        while i < only.len()
            invariant
                i <= only@.len(),
                chosen == exists|j: int|
                    0 <= j < i && selected(rel@, #[trigger] texts(only@)[j]),
            decreases only@.len() - i,
        {
            assert(texts(only@)[i as int] == only@[i as int]@);
            if path_is_selected_by_only(rel, only[i].as_str()) {
                chosen = true;
            }
            i += 1;
        }
        if !chosen {
            return false;
        }
    }
    !is_ignored_by_rules(resolved, ignore_rules)
}

/// The patterns of a `.dockerignore` file: its lines without white space, but for
/// empty ones and comments.
pub open spec fn dockerignore_patterns(l: Seq<Seq<char>>) -> Seq<Seq<char>>
    decreases l.len(),
{
    if l.len() == 0 {
        Seq::empty()
    } else {
        let rest = dockerignore_patterns(l.drop_last());
        let p = trim(l.last());
        if p.len() == 0 || starts_with(p, "#"@) {
            rest
        } else {
            rest.push(p)
        }
    }
}

/// The contents of a list of rules: directories and patterns.
pub open spec fn rules_view(v: Seq<IgnoreRule>) -> Seq<(Seq<char>, Seq<char>)> {
    v.map_values(|r: IgnoreRule| (r.base@, r.pattern@))
}

/// The rules of a `.dockerignore` file, below the directory of the build context.
pub fn dockerignore_rules(context: &str, text: &str) -> (r: Vec<IgnoreRule>)
    ensures
        rules_view(r@) == dockerignore_patterns(lines(text@)).map_values(
            |p: Seq<char>| (context@, p),
        ),
{
    let all = lines_of(text);
    let ghost ls = texts(all@);
    let ghost below = |p: Seq<char>| (context@, p);
    let mut r: Vec<IgnoreRule> = Vec::new();
    let mut i: usize = 0;
    assert(rules_view(r@) =~= dockerignore_patterns(ls.take(0)).map_values(below));
    while i < all.len()
        invariant
            i <= all@.len(),
            ls == texts(all@),
            below == |p: Seq<char>| (context@, p),
            rules_view(r@) == dockerignore_patterns(ls.take(i as int)).map_values(below),
        decreases all@.len() - i,
    {
        proof {
            assert(ls.take(i + 1).drop_last() =~= ls.take(i as int));
            assert(ls.take(i + 1).last() == all@[i as int]@);
        }
        let pattern = trimmed(all[i].as_str());
        if !pattern.as_str().is_empty() && !begins(pattern.as_str(), "#") {
            let ghost before = r@;
            let ghost kept = dockerignore_patterns(ls.take(i as int));
            let rule = IgnoreRule { base: owned(context), pattern };
            r.push(rule);
            proof {
                assert(rules_view(r@) =~= rules_view(before).push((rule.base@, rule.pattern@)));
                assert(kept.push(rule.pattern@).map_values(below) =~= kept.map_values(below).push(
                    (context@, rule.pattern@),
                ));
            }
        }
        i += 1;
    }
    assert(ls.take(i as int) =~= ls);
    r
}

} // verus!
