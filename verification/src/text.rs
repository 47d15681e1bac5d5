//! Texts as sequences of characters: the searching, cutting and number
//! formatting that the other modules are written with.

use vstd::prelude::*;
use vstd::string::*;
use vstd::utf8::{decode_utf8, encode_utf8, encode_utf8_decode_utf8, is_char_boundary};

verus! {

/// `String::push`: the character becomes the last one of the text.
pub assume_specification[ String::push ](s: &mut String, c: char)
    ensures
        final(s)@ == old(s)@.push(c),
;

/// The contents of a list of strings.
pub open spec fn texts(v: Seq<String>) -> Seq<Seq<char>> {
    v.map_values(|s: String| s@)
}

/// Pushing a string pushes its contents.
pub broadcast proof fn texts_push(v: Seq<String>, s: String)
    ensures
        #[trigger] texts(v.push(s)) == texts(v).push(s@),
{
    assert(texts(v.push(s)) =~= texts(v).push(s@));
}

/// The contents of a string that may be absent.
pub open spec fn opt_text(o: Option<String>) -> Option<Seq<char>> {
    match o {
        Some(s) => Some(s@),
        None => None,
    }
}

/// The contents of a list of pairs of strings.
pub open spec fn pairs(v: Seq<(String, String)>) -> Seq<(Seq<char>, Seq<char>)> {
    v.map_values(|e: (String, String)| (e.0@, e.1@))
}

/// Pushing a pair of strings pushes their contents.
pub broadcast proof fn pairs_push(v: Seq<(String, String)>, e: (String, String))
    ensures
        #[trigger] pairs(v.push(e)) == pairs(v).push((e.0@, e.1@)),
{
    assert(pairs(v.push(e)) =~= pairs(v).push((e.0@, e.1@)));
}

/// The pairs, copied.
pub fn clone_pairs(v: &Vec<(String, String)>) -> (r: Vec<(String, String)>)
    ensures
        r@ == v@,
{
    let mut r: Vec<(String, String)> = Vec::new();
    let mut i: usize = 0;
    while i < v.len()
        invariant
            i <= v@.len(),
            r@ =~= v@.take(i as int),
        decreases v@.len() - i,
    {
        r.push((v[i].0.clone(), v[i].1.clone()));
        i += 1;
    }
    assert(v@.take(i as int) =~= v@);
    r
}

/// Whether `p` stands in `s` at index `i`.
pub open spec fn matches_at(s: Seq<char>, p: Seq<char>, i: int) -> bool {
    0 <= i && i + p.len() <= s.len() && s.subrange(i, i + p.len()) == p
}

/// Whether `p` stands anywhere in `s`.
pub open spec fn occurs(s: Seq<char>, p: Seq<char>) -> bool {
    exists|i: int| matches_at(s, p, i)
}

/// The first index, not before `from`, at which `p` stands in `s`.
pub open spec fn find_from(s: Seq<char>, p: Seq<char>, from: int) -> Option<int>
    decreases s.len() - from + 1,
{
    if from < 0 || from + p.len() > s.len() {
        None
    } else if matches_at(s, p, from) {
        Some(from)
    } else {
        find_from(s, p, from + 1)
    }
}

/// The last index, not after `from`, at which `p` stands in `s`.
pub open spec fn rfind_from(s: Seq<char>, p: Seq<char>, from: int) -> Option<int>
    decreases from + 1,
{
    if from < 0 {
        None
    } else if matches_at(s, p, from) {
        Some(from)
    } else {
        rfind_from(s, p, from - 1)
    }
}

pub open spec fn starts_with(s: Seq<char>, p: Seq<char>) -> bool {
    matches_at(s, p, 0)
}

pub open spec fn ends_with(s: Seq<char>, p: Seq<char>) -> bool {
    matches_at(s, p, s.len() - p.len())
}

/// `s` without a leading `p`, where it has one.
pub open spec fn without_prefix(s: Seq<char>, p: Seq<char>) -> Option<Seq<char>> {
    if starts_with(s, p) {
        Some(s.skip(p.len() as int))
    } else {
        None
    }
}

/// `s` without a trailing `p`, where it has one.
pub open spec fn without_suffix(s: Seq<char>, p: Seq<char>) -> Option<Seq<char>> {
    if ends_with(s, p) {
        Some(s.take(s.len() - p.len()))
    } else {
        None
    }
}

/// What stands before and after the first `p` in `s`.
pub open spec fn split_once(s: Seq<char>, p: Seq<char>) -> Option<(Seq<char>, Seq<char>)> {
    match find_from(s, p, 0) {
        Some(i) => Some((s.take(i), s.skip(i + p.len()))),
        None => None,
    }
}

/// The pieces of `s` between the occurrences of `p`, which is not empty.
pub open spec fn split(s: Seq<char>, p: Seq<char>) -> Seq<Seq<char>>
    decreases s.len(),
{
    match find_from(s, p, 0) {
        Some(i) => if p.len() > 0 && 0 <= i && i + p.len() <= s.len() {
            seq![s.take(i)] + split(s.skip(i + p.len()), p)
        } else {
            seq![s]
        },
        None => seq![s],
    }
}

/// The pieces in order, with `sep` between each two.
pub open spec fn join(parts: Seq<Seq<char>>, sep: Seq<char>) -> Seq<char>
    decreases parts.len(),
{
    if parts.len() == 0 {
        Seq::empty()
    } else if parts.len() == 1 {
        parts[0]
    } else {
        join(parts.drop_last(), sep) + sep + parts.last()
    }
}

/// Every occurrence of the character `c` replaced by `with`.
pub open spec fn replaced(s: Seq<char>, c: char, with: Seq<char>) -> Seq<char>
    decreases s.len(),
{
    if s.len() == 0 {
        Seq::empty()
    } else if s.last() == c {
        replaced(s.drop_last(), c, with) + with
    } else {
        replaced(s.drop_last(), c, with).push(s.last())
    }
}

/// A set of characters that a text is trimmed by.
#[derive(Clone, Copy)]
pub enum Class {
    /// The characters with the Unicode property `White_Space`.
    Space,
    /// One character.
    Is(char),
}

/// The characters with the Unicode property `White_Space`.
pub open spec fn is_space(c: char) -> bool {
    let n = c as int;
    ||| 9 <= n <= 13
    ||| n == 0x20
    ||| n == 0x85
    ||| n == 0xa0
    ||| n == 0x1680
    ||| 0x2000 <= n <= 0x200a
    ||| n == 0x2028
    ||| n == 0x2029
    ||| n == 0x202f
    ||| n == 0x205f
    ||| n == 0x3000
}

pub open spec fn in_class(c: char, class: Class) -> bool {
    match class {
        Class::Space => is_space(c),
        Class::Is(d) => c == d,
    }
}

/// `s` without the leading characters of the class.
pub open spec fn trim_front(s: Seq<char>, class: Class) -> Seq<char>
    decreases s.len(),
{
    if s.len() > 0 && in_class(s[0], class) {
        trim_front(s.drop_first(), class)
    } else {
        s
    }
}

/// `s` without the trailing characters of the class.
pub open spec fn trim_back(s: Seq<char>, class: Class) -> Seq<char>
    decreases s.len(),
{
    if s.len() > 0 && in_class(s.last(), class) {
        trim_back(s.drop_last(), class)
    } else {
        s
    }
}

/// `s` without the characters of the class at either end.
pub open spec fn trim_both(s: Seq<char>, class: Class) -> Seq<char> {
    trim_back(trim_front(s, class), class)
}

/// `s` without white space at either end.
pub open spec fn trim(s: Seq<char>) -> Seq<char> {
    trim_both(s, Class::Space)
}

pub open spec fn is_digit(c: char) -> bool {
    48 <= c as int <= 57
}

pub open spec fn is_upper(c: char) -> bool {
    65 <= c as int <= 90
}

pub open spec fn is_lower(c: char) -> bool {
    97 <= c as int <= 122
}

/// The ASCII letters and digits.
pub open spec fn is_alnum(c: char) -> bool {
    is_digit(c) || is_upper(c) || is_lower(c)
}

/// The character with an ASCII upper case letter made lower case.
pub open spec fn lower(c: char) -> char {
    if is_upper(c) {
        ((c as u8 + 32) as u8) as char
    } else {
        c
    }
}

/// The character with an ASCII lower case letter made upper case.
pub open spec fn upper(c: char) -> char {
    if is_lower(c) {
        ((c as u8 - 32) as u8) as char
    } else {
        c
    }
}

/// The text with every ASCII letter made lower case.
pub open spec fn lowercase(s: Seq<char>) -> Seq<char> {
    s.map_values(|c: char| lower(c))
}

/// The decimal digit `d`, which is below ten.
pub open spec fn digit(d: nat) -> char {
    ((48 + d) as u8) as char
}

/// The decimal representation of `n`.
pub open spec fn dec(n: nat) -> Seq<char>
    decreases n,
{
    if n < 10 {
        seq![digit(n)]
    } else {
        dec(n / 10).push(digit(n % 10))
    }
}

pub open spec fn all_digits(s: Seq<char>) -> bool {
    forall|i: int| 0 <= i < s.len() ==> is_digit(#[trigger] s[i])
}

/// The number that a sequence of digits stands for.
pub open spec fn value(s: Seq<char>) -> nat
    decreases s.len(),
{
    if s.len() == 0 {
        0
    } else {
        value(s.drop_last()) * 10 + (s.last() as int - 48) as nat
    }
}

/// The number that a text stands for: digits, perhaps after a plus sign, for a
/// number that is at most `max`.
pub open spec fn parsed(s: Seq<char>, max: nat) -> Option<nat> {
    let t = if s.len() > 0 && s[0] == '+' {
        s.drop_first()
    } else {
        s
    };
    if t.len() > 0 && all_digits(t) && value(t) <= max {
        Some(value(t))
    } else {
        None
    }
}

/// The characters of a text, in order.
pub fn chars_of(s: &str) -> (r: Vec<char>)
    ensures
        r@ == s@,
{
    let mut r: Vec<char> = Vec::new();
    for c in it: s.chars()
        invariant
            it.seq() == s@,
            r@ == it.seq().take(it.index() as int),
    {
        r.push(c);
        assert(s@.take(it.index() as int).push(c) =~= s@.take(it.index() + 1));
    }
    assert(s@.take(s@.len() as int) =~= s@);
    r
}

/// The text made of the given characters.
pub fn string_of(chars: &[char]) -> (r: String)
    ensures
        r@ == chars@,
{
    let mut r: String = String::new();
    let mut i: usize = 0;
    while i < chars.len()
        invariant
            i <= chars@.len(),
            r@ == chars@.take(i as int),
        decreases chars@.len() - i,
    {
        r.push(chars[i]);
        assert(chars@.take(i as int).push(chars@[i as int]) =~= chars@.take(i + 1));
        i += 1;
    }
    assert(chars@.take(i as int) =~= chars@);
    r
}

/// The text made of the characters from index `from` up to index `to`.
pub fn slice_text(chars: &Vec<char>, from: usize, to: usize) -> (r: String)
    requires
        from <= to <= chars@.len(),
    ensures
        r@ == chars@.subrange(from as int, to as int),
{
    let mut r: String = String::new();
    let mut i: usize = from;
    assert(chars@.subrange(from as int, from as int) =~= Seq::<char>::empty());
    while i < to
        invariant
            from <= i <= to <= chars@.len(),
            r@ == chars@.subrange(from as int, i as int),
        decreases to - i,
    {
        r.push(chars[i]);
        assert(chars@.subrange(from as int, i as int).push(chars@[i as int]) =~= chars@.subrange(
            from as int,
            i + 1,
        ));
        i += 1;
    }
    r
}

/// A string with the contents of `s`.
pub fn owned(s: &str) -> (r: String)
    ensures
        r@ == s@,
{
    s.to_owned()
}

/// `a` followed by `b`.
pub fn cat(a: &str, b: &str) -> (r: String)
    ensures
        r@ == a@ + b@,
{
    let mut r: String = a.to_owned();
    r.append(b);
    r
}

/// `a`, `b` and `c` one after the other.
pub fn cat3(a: &str, b: &str, c: &str) -> (r: String)
    ensures
        r@ == a@ + b@ + c@,
{
    let mut r: String = cat(a, b);
    r.append(c);
    r
}

/// Whether two texts have the same characters.
pub fn same(a: &str, b: &str) -> (r: bool)
    ensures
        r == (a@ == b@),
{
    a.to_owned() == b.to_owned()
}

/// Whether the characters `p` stand in `s` at index `i`.
pub fn match_at(s: &Vec<char>, p: &Vec<char>, i: usize) -> (r: bool)
    ensures
        r == matches_at(s@, p@, i as int),
{
    if p.len() > s.len() || i > s.len() - p.len() {
        return false;
    }
    let mut j: usize = 0;
    while j < p.len()
        invariant
            j <= p@.len(),
            i + p.len() <= s.len(),
            forall|k: int| 0 <= k < j ==> s@[i + k] == p@[k],
        decreases p@.len() - j,
    {
        if s[i + j] != p[j] {
            proof {
                assert(s@.subrange(i as int, i + p@.len())[j as int] == s@[i + j]);
            }
            return false;
        }
        j += 1;
    }
    assert(s@.subrange(i as int, i + p@.len()) =~= p@);
    true
}

/// The first index, not before `from`, at which `p` stands in `s`.
pub fn find(s: &Vec<char>, p: &Vec<char>, from: usize) -> (r: Option<usize>)
    ensures
        match r {
            Some(i) => find_from(s@, p@, from as int) == Some(i as int) && from <= i && matches_at(
                s@,
                p@,
                i as int,
            ),
            None => find_from(s@, p@, from as int) is None,
        },
{
    if p.len() > s.len() {
        return None;
    }
    let last: usize = s.len() - p.len();
    let mut i: usize = from;
    while i <= last
        invariant
            p@.len() <= s@.len(),
            last == s@.len() - p@.len(),
            from <= i,
            find_from(s@, p@, from as int) == find_from(s@, p@, i as int),
        decreases last + 1 - i,
    {
        if match_at(s, p, i) {
            return Some(i);
        }
        if i == last {
            proof {
                reveal_with_fuel(find_from, 2);
            }
            return None;
        }
        i += 1;
    }
    None
}

/// The last index at which `p` stands in `s`.
pub fn rfind(s: &Vec<char>, p: &Vec<char>) -> (r: Option<usize>)
    ensures
        match r {
            Some(i) => rfind_from(s@, p@, s@.len() as int) == Some(i as int) && matches_at(
                s@,
                p@,
                i as int,
            ),
            None => rfind_from(s@, p@, s@.len() as int) is None,
        },
{
    let mut i: usize = s.len();
    loop
        invariant
            i <= s@.len(),
            rfind_from(s@, p@, s@.len() as int) == rfind_from(s@, p@, i as int),
        decreases i,
    {
        if match_at(s, p, i) {
            return Some(i);
        }
        if i == 0 {
            proof {
                reveal_with_fuel(rfind_from, 2);
            }
            return None;
        }
        i -= 1;
    }
}

/// Where `p` is found in `s` is a match, and no match stands between `from` and it.
pub proof fn find_is_first(s: Seq<char>, p: Seq<char>, from: int)
    requires
        0 <= from,
    ensures
        match find_from(s, p, from) {
            Some(i) => {
                &&& from <= i
                &&& matches_at(s, p, i)
                &&& forall|k: int| from <= k < i ==> !matches_at(s, p, k)
            },
            None => forall|k: int| from <= k ==> !matches_at(s, p, k),
        },
    decreases s.len() - from + 1,
{
    if from + p.len() <= s.len() && !matches_at(s, p, from) {
        find_is_first(s, p, from + 1);
    }
}

/// Whether `p` stands anywhere in `s`.
pub fn contains(s: &Vec<char>, p: &Vec<char>) -> (r: bool)
    ensures
        r == occurs(s@, p@),
{
    proof {
        find_is_first(s@, p@, 0);
    }
    find(s, p, 0).is_some()
}

/// Whether the text `p` stands anywhere in the text `s`.
pub fn has(s: &str, p: &str) -> (r: bool)
    ensures
        r == occurs(s@, p@),
{
    contains(&chars_of(s), &chars_of(p))
}

/// Whether `s` begins with `p`.
pub fn begins(s: &str, p: &str) -> (r: bool)
    ensures
        r == starts_with(s@, p@),
{
    match_at(&chars_of(s), &chars_of(p), 0)
}

/// Whether `s` ends with `p`.
pub fn ends(s: &str, p: &str) -> (r: bool)
    ensures
        r == ends_with(s@, p@),
{
    let cs = chars_of(s);
    let ps = chars_of(p);
    if ps.len() > cs.len() {
        return false;
    }
    match_at(&cs, &ps, cs.len() - ps.len())
}

/// `s` without a leading `p`, where it has one.
pub fn strip_prefix(s: &str, p: &str) -> (r: Option<String>)
    ensures
        match r {
            Some(t) => without_prefix(s@, p@) == Some(t@),
            None => without_prefix(s@, p@) is None,
        },
{
    let cs = chars_of(s);
    let ps = chars_of(p);
    if match_at(&cs, &ps, 0) {
        Some(slice_text(&cs, ps.len(), cs.len()))
    } else {
        None
    }
}

/// `s` without a trailing `p`, where it has one.
pub fn strip_suffix(s: &str, p: &str) -> (r: Option<String>)
    ensures
        match r {
            Some(t) => without_suffix(s@, p@) == Some(t@),
            None => without_suffix(s@, p@) is None,
        },
{
    let cs = chars_of(s);
    let ps = chars_of(p);
    if ps.len() <= cs.len() && match_at(&cs, &ps, cs.len() - ps.len()) {
        Some(slice_text(&cs, 0, cs.len() - ps.len()))
    } else {
        None
    }
}

/// What stands before and after the first `p` in `s`.
pub fn cut(s: &str, p: &str) -> (r: Option<(String, String)>)
    ensures
        match r {
            Some((a, b)) => split_once(s@, p@) == Some((a@, b@)),
            None => split_once(s@, p@) is None,
        },
{
    let cs = chars_of(s);
    let ps = chars_of(p);
    match find(&cs, &ps, 0) {
        Some(i) => {
            assert(i + ps.len() <= cs.len());
            Some((slice_text(&cs, 0, i), slice_text(&cs, i + ps.len(), cs.len())))
        },
        None => None,
    }
}

/// The pieces of `s` between the occurrences of `p`.
pub fn pieces(s: &str, p: &str) -> (r: Vec<String>)
    requires
        p@.len() > 0,
    ensures
        texts(r@) == split(s@, p@),
        r@.len() > 0,
{
    broadcast use texts_push;

    let cs = chars_of(s);
    let ps = chars_of(p);
    let mut r: Vec<String> = Vec::new();
    let mut start: usize = 0;
    assert(cs@.skip(0) =~= cs@);
    assert(texts(r@) + split(cs@.skip(0), ps@) =~= split(s@, p@));
    loop
        invariant
            start <= cs.len(),
            cs@ == s@,
            ps@ == p@,
            ps@.len() > 0,
            texts(r@) + split(cs@.skip(start as int), ps@) == split(s@, p@),
        decreases cs@.len() - start,
    {
        let ghost rest = cs@.skip(start as int);
        proof {
            find_skip(cs@, ps@, start as int, 0);
        }
        match find(&cs, &ps, start) {
            Some(i) => {
                assert(i + ps.len() <= cs.len());
                let ghost before = texts(r@);
                r.push(slice_text(&cs, start, i));
                proof {
                    assert(cs@.subrange(start as int, i as int) =~= rest.take(i - start));
                    assert(rest.skip(i - start + ps@.len()) =~= cs@.skip(i + ps@.len()));
                    assert(before.push(rest.take(i - start)) + split(cs@.skip(i + ps@.len()), ps@)
                        =~= before + (seq![rest.take(i - start)] + split(
                        cs@.skip(i + ps@.len()),
                        ps@,
                    )));
                }
                start = i + ps.len();
            },
            None => {
                let ghost before = texts(r@);
                r.push(slice_text(&cs, start, cs.len()));
                proof {
                    assert(cs@.subrange(start as int, cs@.len() as int) =~= rest);
                    assert(before.push(rest) =~= before + seq![rest]);
                }
                return r;
            },
        }
    }
}

/// Searching from an index is searching in what is left from it on.
pub proof fn find_skip(s: Seq<char>, p: Seq<char>, at: int, from: int)
    requires
        0 <= at <= s.len(),
        0 <= from,
    ensures
        find_from(s.skip(at), p, from) == match find_from(s, p, at + from) {
            Some(i) => Some(i - at),
            None => None,
        },
    decreases s.len() - at - from + 1,
{
    let t = s.skip(at);
    if from + p.len() <= t.len() {
        assert(t.subrange(from, from + p.len()) =~= s.subrange(at + from, at + from + p.len()));
        if !matches_at(t, p, from) {
            find_skip(s, p, at, from + 1);
        }
    }
}

/// The pieces in order, with `sep` between each two.
pub fn joined(parts: &Vec<String>, sep: &str) -> (r: String)
    ensures
        r@ == join(texts(parts@), sep@),
{
    if parts.len() == 0 {
        return String::new();
    }
    let mut r: String = parts[0].clone();
    let mut i: usize = 1;
    proof {
        assert(texts(parts@).take(1).len() == 1);
    }
    while i < parts.len()
        invariant
            1 <= i <= parts@.len(),
            r@ == join(texts(parts@).take(i as int), sep@),
        decreases parts@.len() - i,
    {
        r.append(sep);
        r.append(parts[i].as_str());
        proof {
            let next = texts(parts@).take(i + 1);
            assert(next.drop_last() =~= texts(parts@).take(i as int));
            assert(next.last() == parts@[i as int]@);
        }
        i += 1;
    }
    assert(texts(parts@).take(i as int) =~= texts(parts@));
    r
}

/// Every occurrence of the character `c` replaced by `with`.
pub fn replace(s: &str, c: char, with: &str) -> (r: String)
    ensures
        r@ == replaced(s@, c, with@),
{
    let cs = chars_of(s);
    let mut r: String = String::new();
    let mut i: usize = 0;
    while i < cs.len()
        invariant
            i <= cs@.len(),
            cs@ == s@,
            r@ == replaced(cs@.take(i as int), c, with@),
        decreases cs@.len() - i,
    {
        proof {
            assert(cs@.take(i + 1).drop_last() =~= cs@.take(i as int));
            assert(cs@.take(i + 1).last() == cs@[i as int]);
        }
        if cs[i] == c {
            r.append(with);
        } else {
            r.push(cs[i]);
        }
        i += 1;
    }
    assert(cs@.take(i as int) =~= s@);
    r
}

/// Whether the character is white space.
pub fn space(c: char) -> (r: bool)
    ensures
        r == is_space(c),
{
    let n: u32 = c as u32;
    (9 <= n && n <= 13) || n == 0x20 || n == 0x85 || n == 0xa0 || n == 0x1680 || (0x2000 <= n && n
        <= 0x200a) || n == 0x2028 || n == 0x2029 || n == 0x202f || n == 0x205f || n == 0x3000
}

/// Whether the character belongs to the class.
pub fn of_class(c: char, class: Class) -> (r: bool)
    ensures
        r == in_class(c, class),
{
    match class {
        Class::Space => space(c),
        Class::Is(d) => c == d,
    }
}

/// `s` without the leading characters of the class.
pub fn trimmed_front(s: &str, class: Class) -> (r: String)
    ensures
        r@ == trim_front(s@, class),
{
    let cs = chars_of(s);
    let mut i: usize = 0;
    assert(cs@.skip(0) =~= cs@);
    while i < cs.len() && of_class(cs[i], class)
        invariant
            i <= cs@.len(),
            trim_front(cs@.skip(i as int), class) == trim_front(s@, class),
        decreases cs@.len() - i,
    {
        assert(cs@.skip(i as int).drop_first() =~= cs@.skip(i + 1));
        i += 1;
    }
    assert(cs@.subrange(i as int, cs@.len() as int) =~= cs@.skip(i as int));
    slice_text(&cs, i, cs.len())
}

/// `s` without the trailing characters of the class.
pub fn trimmed_back(s: &str, class: Class) -> (r: String)
    ensures
        r@ == trim_back(s@, class),
{
    let cs = chars_of(s);
    let mut i: usize = cs.len();
    assert(cs@.take(i as int) =~= cs@);
    while i > 0 && of_class(cs[i - 1], class)
        invariant
            i <= cs@.len(),
            trim_back(cs@.take(i as int), class) == trim_back(s@, class),
        decreases i,
    {
        assert(cs@.take(i as int).drop_last() =~= cs@.take(i - 1));
        i -= 1;
    }
    assert(cs@.subrange(0, i as int) =~= cs@.take(i as int));
    slice_text(&cs, 0, i)
}

/// `s` without the characters of the class at either end.
pub fn trimmed_both(s: &str, class: Class) -> (r: String)
    ensures
        r@ == trim_both(s@, class),
{
    trimmed_back(trimmed_front(s, class).as_str(), class)
}

/// `s` without white space at either end.
pub fn trimmed(s: &str) -> (r: String)
    ensures
        r@ == trim(s@),
{
    trimmed_both(s, Class::Space)
}

/// Whether the character is an ASCII digit.
pub fn digit_char(c: char) -> (r: bool)
    ensures
        r == is_digit(c),
{
    let n: u32 = c as u32;
    48 <= n && n <= 57
}

/// Whether the character is an ASCII letter or digit.
pub fn alnum(c: char) -> (r: bool)
    ensures
        r == is_alnum(c),
{
    let n: u32 = c as u32;
    (48 <= n && n <= 57) || (65 <= n && n <= 90) || (97 <= n && n <= 122)
}

/// The character with an ASCII upper case letter made lower case.
pub fn lower_char(c: char) -> (r: char)
    ensures
        r == lower(c),
{
    let n: u32 = c as u32;
    if 65 <= n && n <= 90 {
        (c as u8 + 32) as char
    } else {
        c
    }
}

/// The character with an ASCII lower case letter made upper case.
pub fn upper_char(c: char) -> (r: char)
    ensures
        r == upper(c),
{
    let n: u32 = c as u32;
    if 97 <= n && n <= 122 {
        (c as u8 - 32) as char
    } else {
        c
    }
}

/// The text with every ASCII letter made lower case.
pub fn lowered(s: &str) -> (r: String)
    ensures
        r@ == lowercase(s@),
{
    let cs = chars_of(s);
    let mut r: String = String::new();
    let mut i: usize = 0;
    while i < cs.len()
        invariant
            i <= cs@.len(),
            cs@ == s@,
            r@ == lowercase(cs@.take(i as int)),
        decreases cs@.len() - i,
    {
        r.push(lower_char(cs[i]));
        assert(lowercase(cs@.take(i as int)).push(lower(cs@[i as int])) =~= lowercase(
            cs@.take(i + 1),
        ));
        i += 1;
    }
    assert(cs@.take(i as int) =~= s@);
    r
}

/// The decimal representation of `n`.
pub fn decimal(n: u64) -> (r: String)
    ensures
        r@ == dec(n as nat),
    decreases n,
{
    if n < 10 {
        let mut r: String = String::new();
        r.push((48 + n as u8) as char);
        assert(Seq::<char>::empty().push(digit(n as nat)) =~= seq![digit(n as nat)]);
        r
    } else {
        let mut r: String = decimal(n / 10);
        r.push((48 + (n % 10) as u8) as char);
        r
    }
}

/// A longer sequence of digits stands for no smaller number.
pub proof fn value_grows(s: Seq<char>, i: int)
    requires
        0 <= i <= s.len(),
        all_digits(s),
    ensures
        value(s.take(i)) <= value(s),
    decreases s.len() - i,
{
    if i == s.len() {
        assert(s.take(i) =~= s);
    } else {
        value_grows(s, i + 1);
        assert(s.take(i + 1).drop_last() =~= s.take(i));
        assert(is_digit(s[i]));
        assert(s.take(i + 1).last() == s[i]);
    }
}

/// The number that a text stands for: digits, perhaps after a plus sign, for a
/// number that is at most `max`.
pub fn parse_uint(s: &str, max: u64) -> (r: Option<u64>)
    ensures
        match r {
            Some(n) => parsed(s@, max as nat) == Some(n as nat) && n <= max,
            None => parsed(s@, max as nat) is None,
        },
{
    let all = chars_of(s);
    let start: usize = if all.len() > 0 && all[0] == '+' {
        1
    } else {
        0
    };
    let ghost t = all@.skip(start as int);
    proof {
        assert(all@.skip(0) =~= all@);
        assert(all@.len() > 0 ==> all@.skip(1) =~= all@.drop_first());
    }
    if all.len() == start {
        return None;
    }
    let mut n: u64 = 0;
    let mut i: usize = start;
    assert(t.take(0).len() == 0);
    while i < all.len()
        invariant
            start <= i <= all@.len(),
            t == all@.skip(start as int),
            forall|k: int| 0 <= k < i - start ==> is_digit(#[trigger] t[k]),
            n == value(t.take(i - start)),
            n <= max,
            parsed(s@, max as nat) == (if t.len() > 0 && all_digits(t) && value(t) <= max {
                Some(value(t))
            } else {
                None
            }),
        decreases all@.len() - i,
    {
        let c = all[i];
        assert(c == t[i - start]);
        if !digit_char(c) {
            return None;
        }
        let d: u64 = (c as u32 - 48) as u64;
        proof {
            assert(t.take(i + 1 - start).drop_last() =~= t.take(i - start));
            assert(t.take(i + 1 - start).last() == c);
            if all_digits(t) {
                value_grows(t, i + 1 - start);
            }
        }
        if n > max / 10 {
            assert(n * 10 > max);
            return None;
        }
        if d > max || n * 10 > max - d {
            return None;
        }
        n = n * 10 + d;
        i += 1;
    }
    assert(t.take(i - start) =~= t);
    Some(n)
}

/// The decimal representation is made of digits.
pub proof fn dec_is_digits(n: nat)
    ensures
        dec(n).len() > 0,
        all_digits(dec(n)),
        value(dec(n)) == n,
    decreases n,
{
    if n < 10 {
        let s = seq![digit(n)];
        assert(s.drop_last() =~= Seq::<char>::empty());
        assert(value(Seq::<char>::empty()) == 0);
        assert(s.last() == digit(n));
        assert(digit(n) as int == 48 + n);
        assert(value(s) == n);
    } else {
        dec_is_digits(n / 10);
        let s = dec(n);
        assert(s.drop_last() =~= dec(n / 10));
        assert(digit(n % 10) as int == 48 + n % 10);
        assert(value(s) == (n / 10) * 10 + n % 10);
    }
}

/// Reading a number back from its decimal representation gives the number.
pub proof fn parsed_dec(n: nat, max: nat)
    requires
        n <= max,
    ensures
        parsed(dec(n), max) == Some(n),
{
    dec_is_digits(n);
    assert(is_digit(dec(n)[0]));
}

/// Distinct numbers have distinct decimal representations.
pub proof fn dec_injective(a: nat, b: nat)
    requires
        dec(a) == dec(b),
    ensures
        a == b,
{
    dec_is_digits(a);
    dec_is_digits(b);
}

/// A line without the carriage return that stood before its line feed.
pub open spec fn chop_return(s: Seq<char>) -> Seq<char> {
    if s.len() > 0 && s.last() == '\r' {
        s.drop_last()
    } else {
        s
    }
}

/// The lines of a text: what each line feed, with a carriage return before it,
/// ends, and what follows the last one if that is not empty.
pub open spec fn lines(s: Seq<char>) -> Seq<Seq<char>>
    decreases s.len(),
{
    if s.len() == 0 {
        Seq::empty()
    } else {
        match find_from(s, seq!['\n'], 0) {
            Some(i) => if 0 <= i < s.len() {
                seq![chop_return(s.take(i))] + lines(s.skip(i + 1))
            } else {
                seq![s]
            },
            None => seq![s],
        }
    }
}

/// The lines of a text.
pub fn lines_of(s: &str) -> (r: Vec<String>)
    ensures
        texts(r@) == lines(s@),
{
    broadcast use texts_push;

    let cs = chars_of(s);
    let mut nl: Vec<char> = Vec::new();
    nl.push('\n');
    assert(nl@ =~= seq!['\n']);
    let mut r: Vec<String> = Vec::new();
    let mut start: usize = 0;
    assert(cs@.skip(0) =~= cs@);
    assert(texts(r@) + lines(cs@.skip(0)) =~= lines(s@));
    while start < cs.len()
        invariant
            start <= cs.len(),
            cs@ == s@,
            nl@ == seq!['\n'],
            texts(r@) + lines(cs@.skip(start as int)) == lines(s@),
        decreases cs@.len() - start,
    {
        let ghost rest = cs@.skip(start as int);
        let ghost before = texts(r@);
        proof {
            find_skip(cs@, nl@, start as int, 0);
        }
        match find(&cs, &nl, start) {
            Some(i) => {
                assert(i + nl.len() <= cs.len());
                proof {
                    assert(cs@.subrange(start as int, i as int) =~= rest.take(i - start));
                    assert(rest.skip(i - start + 1) =~= cs@.skip(i + 1));
                }
                if i > start && cs[i - 1] == '\r' {
                    r.push(slice_text(&cs, start, i - 1));
                    assert(cs@.subrange(start as int, i - 1) =~= rest.take(i - start).drop_last());
                } else {
                    r.push(slice_text(&cs, start, i));
                }
                proof {
                    let line = chop_return(rest.take(i - start));
                    assert(texts(r@) == before.push(line));
                    assert(before.push(line) + lines(cs@.skip(i + 1)) =~= before + (seq![line]
                        + lines(cs@.skip(i + 1))));
                }
                start = i + 1;
            },
            None => {
                r.push(slice_text(&cs, start, cs.len()));
                proof {
                    assert(cs@.subrange(start as int, cs@.len() as int) =~= rest);
                    assert(before.push(rest) =~= before + seq![rest]);
                }
                return r;
            },
        }
    }
    assert(texts(r@) + lines(cs@.skip(start as int)) =~= texts(r@));
    r
}

/// Whether `a` comes before `b` in the order of texts: by the first character in
/// which they differ, a text before those that it is a prefix of.
pub open spec fn text_lt(a: Seq<char>, b: Seq<char>) -> bool
    decreases a.len(),
{
    if b.len() == 0 {
        false
    } else if a.len() == 0 {
        true
    } else if a[0] == b[0] {
        text_lt(a.drop_first(), b.drop_first())
    } else {
        (a[0] as int) < (b[0] as int)
    }
}

/// No text comes before itself.
pub proof fn text_lt_irreflexive(a: Seq<char>)
    ensures
        !text_lt(a, a),
    decreases a.len(),
{
    if a.len() > 0 {
        text_lt_irreflexive(a.drop_first());
    }
}

/// The order of texts is transitive.
pub proof fn text_lt_transitive(a: Seq<char>, b: Seq<char>, c: Seq<char>)
    requires
        text_lt(a, b),
        text_lt(b, c),
    ensures
        text_lt(a, c),
    decreases a.len(),
{
    if a.len() > 0 && a[0] == b[0] && b[0] == c[0] {
        text_lt_transitive(a.drop_first(), b.drop_first(), c.drop_first());
    }
}

/// Of two distinct texts one comes before the other.
pub proof fn text_lt_total(a: Seq<char>, b: Seq<char>)
    ensures
        a == b || text_lt(a, b) || text_lt(b, a),
    decreases a.len(),
{
    if a.len() > 0 && b.len() > 0 && a[0] == b[0] {
        text_lt_total(a.drop_first(), b.drop_first());
        if a.drop_first() == b.drop_first() {
            assert(a =~= seq![a[0]] + a.drop_first());
            assert(b =~= seq![b[0]] + b.drop_first());
        }
    } else if a.len() == 0 && b.len() == 0 {
        assert(a =~= b);
    }
}

/// Of two texts not each comes before the other.
pub proof fn text_lt_asymmetric(a: Seq<char>, b: Seq<char>)
    requires
        text_lt(a, b),
    ensures
        !text_lt(b, a),
        a != b,
{
    text_lt_irreflexive(a);
    if text_lt(b, a) {
        text_lt_transitive(a, b, a);
    }
}

/// The number of a character.
pub fn code_point(c: char) -> (r: u32)
    ensures
        r == c as int,
{
    c as u32
}

/// Whether `a` comes before `b` in the order of texts.
pub fn precedes(a: &str, b: &str) -> (r: bool)
    ensures
        r == text_lt(a@, b@),
{
    let x = chars_of(a);
    let y = chars_of(b);
    let mut i: usize = 0;
    assert(x@.skip(0) =~= x@);
    assert(y@.skip(0) =~= y@);
    loop
        invariant
            i <= x@.len(),
            i <= y@.len(),
            text_lt(a@, b@) == text_lt(x@.skip(i as int), y@.skip(i as int)),
        decreases x@.len() - i,
    {
        if i == y.len() {
            return false;
        }
        if i == x.len() {
            return true;
        }
        if x[i] != y[i] {
            return code_point(x[i]) < code_point(y[i]);
        }
        assert(x@.skip(i as int).drop_first() =~= x@.skip(i + 1));
        assert(y@.skip(i as int).drop_first() =~= y@.skip(i + 1));
        i += 1;
    }
}

/// The text whose UTF-8 encoding is the first `n` bytes of that of `s`.
pub open spec fn byte_prefix(s: Seq<char>, n: int) -> Seq<char> {
    decode_utf8(encode_utf8(s).subrange(0, n))
}

/// The text whose UTF-8 encoding is the first `n` bytes of that of `s`; they must
/// end where a character ends.
pub fn first_bytes(s: &str, n: usize) -> (r: String)
    requires
        is_char_boundary(encode_utf8(s@), n as int),
    ensures
        r@ == byte_prefix(s@, n as int),
{
    let (head, _) = s.split_at(n);
    proof {
        encode_utf8_decode_utf8(head@);
        assert(encode_utf8(head@) =~= encode_utf8(s@).subrange(0, n as int));
    }
    owned(head)
}

/// What `String::from_utf8_lossy` makes of bytes.
pub uninterp spec fn lossy(bytes: Seq<u8>) -> Seq<char>;

/// `String::from_utf8_lossy`: bytes that are valid UTF-8 are the text that they
/// encode. What stands for other bytes is not said.
#[verifier::external_body]
pub(crate) fn lossy_text(bytes: &Vec<u8>) -> (r: String)
    ensures
        r@ == lossy(bytes@),
        vstd::utf8::valid_utf8(bytes@) ==> r@ == vstd::utf8::decode_utf8(bytes@),
{
    String::from_utf8_lossy(bytes).into_owned()
}

/// What a command printed, as a text: bytes that are valid UTF-8 are the text that
/// they encode.
pub fn output_text(bytes: &Vec<u8>) -> (r: String)
    ensures
        r@ == lossy(bytes@),
        vstd::utf8::valid_utf8(bytes@) ==> r@ == vstd::utf8::decode_utf8(bytes@),
{
    lossy_text(bytes)
}

/// What `format!` with `{:?}` makes of a text: the text as it is written in Rust.
pub uninterp spec fn debugged(s: Seq<char>) -> Seq<char>;

/// `format!` with `{:?}` on a text. Nothing is said of how characters are escaped.
#[verifier::external_body]
pub(crate) fn debug_text(s: &str) -> (r: String)
    ensures
        r@ == debugged(s@),
{
    format!("{:?}", s)
}

/// A list of texts as it is written in Rust: in brackets, with commas between them.
pub open spec fn debug_list(v: Seq<Seq<char>>) -> Seq<char> {
    "["@ + join(v.map_values(|s: Seq<char>| debugged(s)), ", "@) + "]"@
}

/// A list of texts as it is written in Rust.
pub fn debug_texts(v: &Vec<String>) -> (r: String)
    ensures
        r@ == debug_list(texts(v@)),
{
    let ghost all = texts(v@).map_values(|s: Seq<char>| debugged(s));
    let mut parts: Vec<String> = Vec::new();
    let mut i: usize = 0;
    assert(texts(parts@) =~= all.take(0));
    while i < v.len()
        invariant
            i <= v@.len(),
            all == texts(v@).map_values(|s: Seq<char>| debugged(s)),
            texts(parts@) == all.take(i as int),
        decreases v@.len() - i,
    {
        let s = debug_text(v[i].as_str());
        let ghost before = parts@;
        parts.push(s);
        proof {
            texts_push(before, s);
            assert(all.take(i + 1) =~= all.take(i as int).push(s@));
        }
        i += 1;
    }
    assert(all.take(i as int) =~= all);
    cat3("[", joined(&parts, ", ").as_str(), "]")
}

/// The words before the end of a text, and the one that reaches to its end, which is
/// empty behind white space.
pub open spec fn words_and_last(s: Seq<char>) -> (Seq<Seq<char>>, Seq<char>)
    decreases s.len(),
{
    if s.len() == 0 {
        (Seq::empty(), Seq::empty())
    } else {
        let (done, last) = words_and_last(s.drop_last());
        if !is_space(s.last()) {
            (done, last.push(s.last()))
        } else if last.len() == 0 {
            (done, last)
        } else {
            (done.push(last), Seq::empty())
        }
    }
}

/// The words of a text: what stands between white space.
pub open spec fn words(s: Seq<char>) -> Seq<Seq<char>> {
    let (done, last) = words_and_last(s);
    if last.len() == 0 {
        done
    } else {
        done.push(last)
    }
}

/// The words of a text.
pub fn words_of(s: &str) -> (r: Vec<String>)
    ensures
        texts(r@) == words(s@),
{
    broadcast use texts_push;

    let c = chars_of(s);
    let mut r: Vec<String> = Vec::new();
    let mut start: usize = 0;
    let mut i: usize = 0;
    assert(c@.take(0) =~= Seq::empty());
    assert(texts(r@) =~= Seq::empty());
    assert(c@.subrange(0, 0) =~= Seq::empty());
    while i < c.len()
        invariant
            start <= i <= c@.len(),
            words_and_last(c@.take(i as int)) == (
                texts(r@),
                c@.subrange(start as int, i as int),
            ),
        decreases c@.len() - i,
    {
        assert(c@.take(i + 1).drop_last() =~= c@.take(i as int));
        assert(c@.take(i + 1).last() == c@[i as int]);
        if space(c[i]) {
            if start < i {
                r.push(slice_text(&c, start, i));
            }
            start = i + 1;
            assert(c@.subrange(i + 1, i + 1) =~= Seq::empty());
            assert(c@.subrange(i as int, i as int) =~= Seq::empty());
        } else {
            assert(c@.subrange(start as int, i + 1) =~= c@.subrange(start as int, i as int).push(
                c@[i as int],
            ));
        }
        i += 1;
    }
    assert(c@.take(i as int) =~= c@);
    if start < i {
        r.push(slice_text(&c, start, i));
    }
    r
}

/// A text with spaces behind it, at least `n` characters long.
pub open spec fn padded(s: Seq<char>, n: nat) -> Seq<char> {
    if s.len() >= n {
        s
    } else {
        s + Seq::new((n - s.len()) as nat, |i: int| ' ')
    }
}

/// A text with spaces behind it, at least `n` characters long.
pub fn pad(s: &str, n: usize) -> (r: String)
    ensures
        r@ == padded(s@, n as nat),
{
    let mut len: usize = chars_of(s).len();
    let mut r = owned(s);
    let ghost first = s@;
    assert(first + Seq::new(0, |i: int| ' ') =~= first);
    while len < n
        invariant
            len == r@.len(),
            first.len() <= len,
            len <= n || len == first.len(),
            r@ == first + Seq::new((len - first.len()) as nat, |i: int| ' '),
        decreases n - len,
    {
        r.push(' ');
        assert(r@ =~= first + Seq::new((len + 1 - first.len()) as nat, |i: int| ' '));
        len += 1;
    }
    assert(r@ =~= padded(s@, n as nat));
    r
}

} // verus!
