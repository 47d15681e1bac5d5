//! What holds of cutting and trimming texts, whatever they are.

use vstd::prelude::*;
use vstd::string::*;

use crate::text::{
    find_from, find_is_first, is_space, join, matches_at, split, trim, trim_back, trim_front, words,
    words_and_last, Class,
};

verus! {

/// Whether a character does not stand in a text.
pub open spec fn lacks(s: Seq<char>, c: char) -> bool {
    forall|i: int| 0 <= i < s.len() ==> #[trigger] s[i] != c
}

/// A single character stands where it stands.
pub proof fn char_at(s: Seq<char>, c: char, i: int)
    ensures
        matches_at(s, seq![c], i) <==> 0 <= i < s.len() && s[i] == c,
{
    if 0 <= i < s.len() {
        let w = s.subrange(i, i + 1);
        assert(w[0] == s[i]);
        if s[i] == c {
            assert(w =~= seq![c]);
        }
    }
}

/// The first place of a character behind a part that lacks it.
pub proof fn first_char(a: Seq<char>, c: char, b: Seq<char>, from: int)
    requires
        lacks(a, c),
        0 <= from <= a.len(),
    ensures
        find_from(a + seq![c] + b, seq![c], from) == Some(a.len() as int),
    decreases a.len() - from,
{
    let s = a + seq![c] + b;
    char_at(s, c, from);
    if from < a.len() {
        assert(s[from] == a[from]);
        first_char(a, c, b, from + 1);
    } else {
        assert(s[from] == c);
    }
}

/// A character that a text lacks is not found in it.
pub proof fn no_char(a: Seq<char>, c: char, from: int)
    requires
        lacks(a, c),
        0 <= from,
    ensures
        find_from(a, seq![c], from) is None,
    decreases a.len() - from,
{
    if from < a.len() {
        char_at(a, c, from);
        no_char(a, c, from + 1);
    }
}

/// A text that lacks a character is a single piece.
pub proof fn one_piece(s: Seq<char>, c: char)
    requires
        lacks(s, c),
    ensures
        split(s, seq![c]) == seq![s],
{
    no_char(s, c, 0);
}

/// What stands before the first place of a character lacks it.
pub proof fn before_first(s: Seq<char>, c: char)
    ensures
        match find_from(s, seq![c], 0) {
            Some(i) => 0 <= i < s.len() && s[i] == c && lacks(s.take(i), c) && s == s.take(i)
                + seq![c] + s.skip(i + 1),
            None => lacks(s, c),
        },
{
    find_is_first(s, seq![c], 0);
    match find_from(s, seq![c], 0) {
        Some(i) => {
            char_at(s, c, i);
            assert forall|j: int| 0 <= j < i implies #[trigger] s.take(i)[j] != c by {
                char_at(s, c, j);
            }
            assert(s =~= s.take(i) + seq![c] + s.skip(i + 1));
        },
        None => {
            assert forall|j: int| 0 <= j < s.len() implies #[trigger] s[j] != c by {
                char_at(s, c, j);
            }
        },
    }
}

/// The pieces of two texts with the character between them are those of the first, then
/// those of the second.
pub proof fn pieces_apart(a: Seq<char>, c: char, b: Seq<char>)
    ensures
        split(a + seq![c] + b, seq![c]) == split(a, seq![c]) + split(b, seq![c]),
        split(a, seq![c]).len() > 0,
    decreases a.len(),
{
    let p = seq![c];
    let s = a + p + b;
    before_first(a, c);
    match find_from(a, p, 0) {
        Some(i) => {
            let rest = a.skip(i + 1);
            assert(s =~= a.take(i) + p + (rest + p + b));
            first_char(a.take(i), c, rest + p + b, 0);
            assert(a =~= a.take(i) + p + rest);
            first_char(a.take(i), c, rest, 0);
            assert(s.take(i) =~= a.take(i));
            assert(s.skip(i + 1) =~= rest + p + b);
            pieces_apart(rest, c, b);
            assert(seq![a.take(i)] + (split(rest, p) + split(b, p)) =~= (seq![a.take(i)] + split(
                rest,
                p,
            )) + split(b, p));
        },
        None => {
            one_piece(a, c);
            first_char(a, c, b, 0);
            assert(s.take(a.len() as int) =~= a);
            assert(s.skip((a.len() + 1) as int) =~= b);
        },
    }
}

/// The pieces of a text make it up again, and none of them has the character.
pub proof fn pieces_make_up(s: Seq<char>, c: char)
    ensures
        split(s, seq![c]).len() > 0,
        forall|i: int|
            0 <= i < split(s, seq![c]).len() ==> lacks(#[trigger] split(s, seq![c])[i], c),
        join(split(s, seq![c]), seq![c]) == s,
    decreases s.len(),
{
    let p = seq![c];
    before_first(s, c);
    match find_from(s, p, 0) {
        Some(i) => {
            let rest = s.skip(i + 1);
            pieces_make_up(rest, c);
            join_front(s.take(i), split(rest, p), p);
            assert(split(s, p) == seq![s.take(i)] + split(rest, p));
            assert forall|k: int| 0 <= k < split(s, p).len() implies lacks(
                #[trigger] split(s, p)[k],
                c,
            ) by {
                if k > 0 {
                    assert(split(s, p)[k] == split(rest, p)[k - 1]);
                }
            }
        },
        None => {
            assert(split(s, p) =~= seq![s]);
        },
    }
}

/// Joining more pieces behind a first one.
pub proof fn join_front(x: Seq<char>, v: Seq<Seq<char>>, sep: Seq<char>)
    requires
        v.len() > 0,
    ensures
        join(seq![x] + v, sep) == x + sep + join(v, sep),
    decreases v.len(),
{
    let all = seq![x] + v;
    assert(all.last() == v.last());
    if v.len() == 1 {
        assert(all.drop_last() =~= seq![x]);
        assert(join(seq![x], sep) == x);
        assert(join(v, sep) == v[0]);
        assert(join(all, sep) == join(all.drop_last(), sep) + sep + all.last());
    } else {
        assert(all.drop_last() =~= seq![x] + v.drop_last());
        join_front(x, v.drop_last(), sep);
        assert(join(all, sep) =~= x + sep + (join(v.drop_last(), sep) + sep + v.last()));
    }
}

/// Pieces that lack a character, joined by it, are found again.
pub proof fn joined_pieces(v: Seq<Seq<char>>, c: char)
    requires
        v.len() > 0,
        forall|i: int| 0 <= i < v.len() ==> lacks(#[trigger] v[i], c),
    ensures
        split(join(v, seq![c]), seq![c]) == v,
    decreases v.len(),
{
    let p = seq![c];
    if v.len() == 1 {
        one_piece(v[0], c);
        assert(v =~= seq![v[0]]);
    } else {
        let d = v.drop_last();
        assert forall|i: int| 0 <= i < d.len() implies lacks(#[trigger] d[i], c) by {
            assert(d[i] == v[i]);
        }
        joined_pieces(d, c);
        pieces_apart(join(d, p), c, v.last());
        one_piece(v.last(), c);
        assert(v =~= d + seq![v.last()]);
    }
}

/// Whether a text is not empty, and neither starts nor ends with white space.
pub open spec fn snug(s: Seq<char>) -> bool {
    s.len() > 0 && !is_space(s[0]) && !is_space(s.last())
}

/// Whether a text is made of white space.
pub open spec fn blank(s: Seq<char>) -> bool {
    forall|i: int| 0 <= i < s.len() ==> is_space(#[trigger] s[i])
}

/// White space in front is trimmed off.
pub proof fn trims_front(a: Seq<char>, s: Seq<char>)
    requires
        blank(a),
        s.len() > 0,
        !is_space(s[0]),
    ensures
        trim_front(a + s, Class::Space) == s,
    decreases a.len(),
{
    if a.len() > 0 {
        assert((a + s)[0] == a[0]);
        assert((a + s).drop_first() =~= a.drop_first() + s);
        assert forall|i: int| 0 <= i < a.drop_first().len() implies is_space(
            #[trigger] a.drop_first()[i],
        ) by {
            assert(a.drop_first()[i] == a[i + 1]);
        }
        trims_front(a.drop_first(), s);
    } else {
        assert(a + s =~= s);
    }
}

/// White space behind is trimmed off.
pub proof fn trims_back(s: Seq<char>, b: Seq<char>)
    requires
        blank(b),
        s.len() > 0,
        !is_space(s.last()),
    ensures
        trim_back(s + b, Class::Space) == s,
    decreases b.len(),
{
    if b.len() > 0 {
        assert((s + b).last() == b.last());
        assert(is_space(b[b.len() - 1]));
        assert((s + b).drop_last() =~= s + b.drop_last());
        assert forall|i: int| 0 <= i < b.drop_last().len() implies is_space(
            #[trigger] b.drop_last()[i],
        ) by {
            assert(b.drop_last()[i] == b[i]);
        }
        trims_back(s, b.drop_last());
    } else {
        assert(s + b =~= s);
    }
}

/// White space around a text is trimmed off, and nothing else.
pub proof fn trims_around(a: Seq<char>, s: Seq<char>, b: Seq<char>)
    requires
        blank(a),
        blank(b),
        snug(s),
    ensures
        trim(a + s + b) == s,
{
    assert(a + s + b =~= a + (s + b));
    assert((s + b)[0] == s[0]);
    trims_front(a, s + b);
    trims_back(s, b);
}

/// A text made of white space is trimmed to nothing.
pub proof fn trims_blank(a: Seq<char>)
    requires
        blank(a),
    ensures
        trim(a) == Seq::<char>::empty(),
        trim_front(a, Class::Space) == Seq::<char>::empty(),
    decreases a.len(),
{
    if a.len() > 0 {
        assert(is_space(a[0]));
        assert forall|i: int| 0 <= i < a.drop_first().len() implies is_space(
            #[trigger] a.drop_first()[i],
        ) by {
            assert(a.drop_first()[i] == a[i + 1]);
        }
        trims_blank(a.drop_first());
    } else {
        assert(a =~= Seq::empty());
    }
}

/// White space behind a text ends its last word.
proof fn words_before_gap(a: Seq<char>, gap: Seq<char>)
    requires
        gap.len() > 0,
        blank(gap),
    ensures
        words_and_last(a + gap) == (words(a), Seq::<char>::empty()),
    decreases gap.len(),
{
    let d = gap.drop_last();
    assert((a + gap).drop_last() =~= a + d);
    assert((a + gap).last() == gap[gap.len() - 1]);
    assert(is_space(gap[gap.len() - 1]));
    if d.len() > 0 {
        assert forall|i: int| 0 <= i < d.len() implies is_space(#[trigger] d[i]) by {
            assert(d[i] == gap[i]);
        }
        words_before_gap(a, d);
    } else {
        assert(a + d =~= a);
        if words_and_last(a).1.len() == 0 {
            assert(words_and_last(a).1 =~= Seq::empty());
        }
    }
}

/// The words of a text behind a gap.
proof fn words_behind_gap(a: Seq<char>, gap: Seq<char>, b: Seq<char>)
    requires
        gap.len() > 0,
        blank(gap),
    ensures
        words_and_last(a + gap + b) == (words(a) + words_and_last(b).0, words_and_last(b).1),
    decreases b.len(),
{
    if b.len() > 0 {
        let d = b.drop_last();
        words_behind_gap(a, gap, d);
        assert((a + gap + b).drop_last() =~= a + gap + d);
        assert((a + gap + b).last() == b.last());
        let (done, last) = words_and_last(d);
        assert((words(a) + done).push(last) =~= words(a) + done.push(last));
    } else {
        words_before_gap(a, gap);
        assert(a + gap + b =~= a + gap);
        assert(words(a) + words_and_last(b).0 =~= words(a));
    }
}

/// The words of two texts with white space between them are those of the first, then those
/// of the second.
pub proof fn words_apart(a: Seq<char>, gap: Seq<char>, b: Seq<char>)
    requires
        gap.len() > 0,
        blank(gap),
    ensures
        words(a + gap + b) == words(a) + words(b),
{
    words_behind_gap(a, gap, b);
    let (done, last) = words_and_last(b);
    if last.len() > 0 {
        assert((words(a) + done).push(last) =~= words(a) + done.push(last));
    }
}

/// A text without white space is a single word, and white space alone is none.
pub proof fn one_word(s: Seq<char>, gap: Seq<char>)
    requires
        s.len() > 0,
        forall|i: int| 0 <= i < s.len() ==> !is_space(#[trigger] s[i]),
        blank(gap),
    ensures
        words(s) == seq![s],
        words(gap) == Seq::<Seq<char>>::empty(),
{
    word_grows(s);
    assert(Seq::<Seq<char>>::empty().push(s) =~= seq![s]);
    let e = Seq::<char>::empty();
    assert(words(e) =~= Seq::empty());
    if gap.len() > 0 {
        words_before_gap(e, gap);
        assert(e + gap =~= gap);
    } else {
        assert(gap =~= e);
    }
}

proof fn word_grows(s: Seq<char>)
    requires
        forall|i: int| 0 <= i < s.len() ==> !is_space(#[trigger] s[i]),
    ensures
        words_and_last(s) == (Seq::<Seq<char>>::empty(), s),
    decreases s.len(),
{
    if s.len() > 0 {
        let d = s.drop_last();
        assert forall|i: int| 0 <= i < d.len() implies !is_space(#[trigger] d[i]) by {
            assert(d[i] == s[i]);
        }
        word_grows(d);
        assert(!is_space(s[s.len() - 1]));
        assert(d.push(s.last()) =~= s);
    } else {
        assert(s =~= Seq::empty());
    }
}

} // verus!
