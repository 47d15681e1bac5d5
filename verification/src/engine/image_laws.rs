//! Which images deployed documents name, whatever the documents and images are.

use vstd::prelude::*;
use vstd::string::*;

use crate::engine::controllers::{
    docs_injected, image_line, image_of_line, image_rewritten, images_injected, unquoted,
};
use crate::text::{
    find_from, find_is_first, is_space, matches_at, split, starts_with, trim, trim_back,
    trim_front, without_prefix, Class,
};
use crate::text_laws::{
    blank, join_front, joined_pieces, lacks, pieces_make_up, snug, trims_around, trims_front,
};

verus! {

/// Whether a text can be the name of an image: not empty, on one line, without white
/// space at its ends or a quote in front.
pub open spec fn image_name(s: Seq<char>) -> bool {
    snug(s) && lacks(s, '\n') && s[0] != '"' && s[0] != '\''
}

/// Whether a text is what may stand before the key of a line: white space, then perhaps
/// the mark of a list item.
pub open spec fn lead(s: Seq<char>, indent: Seq<char>, pad: Seq<char>) -> bool {
    blank(indent) && blank(pad) && (s == indent || s == indent + "- "@ + pad)
}

/// A line that gives an image, as it is or in quotes.
pub open spec fn image_given(
    before: Seq<char>,
    gap: Seq<char>,
    quote: Seq<char>,
    image: Seq<char>,
    behind: Seq<char>,
) -> Seq<char> {
    before + "image:"@ + gap + quote + image + quote + behind
}

/// Whether a text is a quote, or none.
pub open spec fn is_quote(s: Seq<char>) -> bool {
    s.len() == 0 || s == seq!['"'] || s == seq!['\'']
}

/// The text of a line behind the white space and mark in front, without the white space
/// behind.
proof fn lead_cut(
    before: Seq<char>,
    indent: Seq<char>,
    pad: Seq<char>,
    body: Seq<char>,
    behind: Seq<char>,
)
    requires
        lead(before, indent, pad),
        blank(behind),
        snug(body),
        body[0] == 'i',
    ensures
        image_of_line(before + body + behind) == (match without_prefix(body, "image:"@) {
            Some(v) => Some(unquoted(trim(v))),
            None => None,
        }),
{
    let l = before + body + behind;
    reveal_strlit("- ");
    if before == indent {
        trims_around(indent, body, behind);
        if starts_with(body, "- "@) {
            assert(body.subrange(0, 2)[0] == '-');
        }
    } else {
        let core = "- "@ + pad + body;
        assert(l =~= indent + core + behind);
        assert(core[0] == '-');
        assert(core.last() == body.last());
        trims_around(indent, core, behind);
        assert(core.subrange(0, 2) =~= "- "@);
        assert(core.skip(2) =~= pad + body);
        trims_front(pad, body);
    }
}

/// The key of a line that gives an image stands behind the white space and mark in front.
proof fn key_found(before: Seq<char>, indent: Seq<char>, pad: Seq<char>, rest: Seq<char>, from: int)
    requires
        lead(before, indent, pad),
        0 <= from <= before.len(),
    ensures
        find_from(before + "image:"@ + rest, "image:"@, from) == Some(before.len() as int),
    decreases before.len() - from,
{
    let l = before + "image:"@ + rest;
    reveal_strlit("image:");
    reveal_strlit("- ");
    if from < before.len() {
        key_found(before, indent, pad, rest, from + 1);
        if matches_at(l, "image:"@, from) {
            assert(l.subrange(from, from + 6)[0] == 'i');
            assert(l[from] == before[from]);
            if from < indent.len() {
                assert(before[from] == indent[from]);
                assert(is_space(indent[from]));
            } else if from < indent.len() + 2 {
                assert(before[from] == "- "@[from - indent.len()]);
            } else {
                assert(before[from] == pad[from - indent.len() - 2]);
                assert(is_space(pad[from - indent.len() - 2]));
            }
        }
    } else {
        assert(l.subrange(from, from + 6) =~= "image:"@);
    }
}

/// What a line that gives an image gives, and what becomes of it when images are replaced.
#[verifier::rlimit(40)]
proof fn line_given(
    before: Seq<char>,
    indent: Seq<char>,
    pad: Seq<char>,
    gap: Seq<char>,
    quote: Seq<char>,
    image: Seq<char>,
    behind: Seq<char>,
    selector: Seq<char>,
    new: Seq<char>,
)
    requires
        lead(before, indent, pad),
        blank(gap),
        blank(behind),
        is_quote(quote),
        image_name(image),
    ensures
        image_of_line(image_given(before, gap, quote, image, behind)) == Some(image),
        image_line(image_given(before, gap, quote, image, behind), selector, new) == if image
            == selector {
            image_given(before, " "@, Seq::empty(), new, Seq::empty())
        } else {
            image_given(before, gap, quote, image, behind)
        },
{
    reveal_strlit("image:");
    reveal_strlit("image: ");
    reveal_strlit(" ");
    let e = Seq::<char>::empty();
    let l = image_given(before, gap, quote, image, behind);
    let body = "image:"@ + gap + quote + image + quote;
    let given = quote + image + quote;
    assert(l =~= before + body + behind);
    assert(body[0] == 'i');
    assert(given.last() == (if quote.len() == 0 {
        image.last()
    } else {
        quote[0]
    }));
    assert(given[0] == (if quote.len() == 0 {
        image[0]
    } else {
        quote[0]
    }));
    assert(body.last() == given.last());
    assert(snug(body));
    lead_cut(before, indent, pad, body, behind);
    assert(body.subrange(0, 6) =~= "image:"@);
    assert(body.skip(6) =~= gap + given);
    assert(snug(given));
    trims_around(gap, given, e);
    assert(gap + given + e =~= gap + given);
    if quote.len() == 0 {
        assert(given =~= image);
    } else {
        assert(given.subrange(1, given.len() - 1) =~= image);
    }
    assert(l =~= before + "image:"@ + (gap + quote + image + quote + behind));
    key_found(before, indent, pad, gap + quote + image + quote + behind, 0);
    assert(l.take(before.len() as int) =~= before);
    assert(before + "image: "@ + new =~= image_given(before, " "@, e, new, e));
}

/// The image that a line gives in the end where it gave `image` and the replacements up to
/// a number of them were made.
spec fn image_after(image: Seq<char>, maps: Seq<(Seq<char>, Seq<char>)>) -> Seq<char>
    decreases maps.len(),
{
    if maps.len() == 0 {
        image
    } else {
        let i = image_after(image, maps.drop_last());
        if i == maps.last().0 {
            maps.last().1
        } else {
            i
        }
    }
}

/// A line after all replacements.
spec fn line_after(l: Seq<char>, maps: Seq<(Seq<char>, Seq<char>)>) -> Seq<char>
    decreases maps.len(),
{
    if maps.len() == 0 {
        l
    } else {
        image_line(line_after(l, maps.drop_last()), maps.last().0, maps.last().1)
    }
}

/// Whether the images replace each their own: the selectors are distinct, no image is
/// the selector of another, and all of them are names of images.
pub open spec fn maps_apart(maps: Seq<(Seq<char>, Seq<char>)>) -> bool {
    &&& forall|i: int|
        0 <= i < maps.len() ==> image_name((#[trigger] maps[i]).0) && image_name(maps[i].1)
    &&& forall|i: int, j: int|
        0 <= i < maps.len() && 0 <= j < maps.len() && i != j ==> (#[trigger] maps[i]).0 != (
        #[trigger] maps[j]).0 && maps[i].1 != maps[j].0
}

/// A line that was given keeps a line that gives an image.
proof fn given_after(
    before: Seq<char>,
    indent: Seq<char>,
    pad: Seq<char>,
    gap: Seq<char>,
    quote: Seq<char>,
    image: Seq<char>,
    behind: Seq<char>,
    maps: Seq<(Seq<char>, Seq<char>)>,
)
    requires
        lead(before, indent, pad),
        blank(gap),
        blank(behind),
        is_quote(quote),
        image_name(image),
        forall|i: int|
            0 <= i < maps.len() ==> image_name((#[trigger] maps[i]).0) && image_name(maps[i].1),
    ensures
        image_name(image_after(image, maps)),
        (line_after(image_given(before, gap, quote, image, behind), maps) == image_given(
            before,
            gap,
            quote,
            image,
            behind,
        ) && image_after(image, maps) == image) || line_after(
            image_given(before, gap, quote, image, behind),
            maps,
        ) == image_given(before, " "@, Seq::empty(), image_after(image, maps), Seq::empty()),
    decreases maps.len(),
{
    if maps.len() > 0 {
        let d = maps.drop_last();
        let e = Seq::<char>::empty();
        assert forall|i: int| 0 <= i < d.len() implies image_name((#[trigger] d[i]).0)
            && image_name(d[i].1) by {
            assert(d[i] == maps[i]);
        }
        given_after(before, indent, pad, gap, quote, image, behind, d);
        let i = image_after(image, d);
        let m = maps.last();
        assert(m == maps[maps.len() - 1]);
        reveal_strlit(" ");
        assert(is_space(" "@[0]));
        line_given(before, indent, pad, gap, quote, image, behind, m.0, m.1);
        line_given(before, indent, pad, " "@, e, i, e, m.0, m.1);
    }
}

/// The image of a line after replacements that are apart.
proof fn image_settled(image: Seq<char>, maps: Seq<(Seq<char>, Seq<char>)>, j: int)
    requires
        maps_apart(maps),
        0 <= j < maps.len(),
    ensures
        image == maps[j].0 ==> image_after(image, maps) == maps[j].1,
        (forall|i: int| 0 <= i < maps.len() ==> (#[trigger] maps[i]).0 != image) ==> image_after(
            image,
            maps,
        ) == image,
    decreases maps.len(),
{
    let d = maps.drop_last();
    assert forall|i: int| 0 <= i < d.len() implies d[i] == maps[i] by {}
    assert(maps_apart(d));
    if j < d.len() {
        image_settled(image, d, j);
        assert(maps[j].1 != maps[maps.len() - 1].0);
    } else {
        if d.len() > 0 {
            image_settled(image, d, 0);
        }
    }
}

/// Replacing an image keeps lines apart.
proof fn rewritten_lines(doc: Seq<char>, selector: Seq<char>, image: Seq<char>)
    requires
        lacks(image, '\n'),
    ensures
        split(image_rewritten(doc, selector, image), "\n"@) == split(doc, "\n"@).map_values(
            |l: Seq<char>| image_line(l, selector, image),
        ),
{
    reveal_strlit("\n");
    reveal_strlit("image: ");
    assert("\n"@ =~= seq!['\n']);
    pieces_make_up(doc, '\n');
    let lines = split(doc, "\n"@);
    let v = lines.map_values(|l: Seq<char>| image_line(l, selector, image));
    assert forall|i: int| 0 <= i < v.len() implies lacks(#[trigger] v[i], '\n') by {
        let l = lines[i];
        assert(lacks(l, '\n'));
        find_is_first(l, "image:"@, 0);
        if let Some(k) = find_from(l, "image:"@, 0) {
            let n = l.take(k) + "image: "@ + image;
            assert forall|c: int| 0 <= c < n.len() implies #[trigger] n[c] != '\n' by {
                if c < k {
                    assert(n[c] == l[c]);
                } else if c < k + 7 {
                    assert(n[c] == "image: "@[c - k]);
                } else {
                    assert(n[c] == image[c - k - 7]);
                }
            }
        }
    }
    joined_pieces(v, '\n');
}

/// The lines of a document after all replacements.
proof fn injected_lines(doc: Seq<char>, maps: Seq<(Seq<char>, Seq<char>)>)
    requires
        forall|i: int| 0 <= i < maps.len() ==> lacks((#[trigger] maps[i]).1, '\n'),
    ensures
        split(images_injected(doc, maps), "\n"@) == split(doc, "\n"@).map_values(
            |l: Seq<char>| line_after(l, maps),
        ),
    decreases maps.len(),
{
    if maps.len() > 0 {
        let d = maps.drop_last();
        let m = maps.last();
        assert(m == maps[maps.len() - 1]);
        assert forall|i: int| 0 <= i < d.len() implies lacks((#[trigger] d[i]).1, '\n') by {
            assert(d[i] == maps[i]);
        }
        injected_lines(doc, d);
        rewritten_lines(images_injected(doc, d), m.0, m.1);
        assert(split(images_injected(doc, maps), "\n"@) =~= split(doc, "\n"@).map_values(
            |l: Seq<char>| line_after(l, maps),
        ));
    } else {
        assert(split(doc, "\n"@).map_values(|l: Seq<char>| line_after(l, maps)) =~= split(
            doc,
            "\n"@,
        ));
    }
}

/// A document keeps its lines when images are injected, and each line that gives the image
/// that a pair selects, with or without the mark of a list item or quotes, gives the image
/// of that pair in the end, whichever of the pairs it is.
pub proof fn every_image_injected(
    doc: Seq<char>,
    maps: Seq<(Seq<char>, Seq<char>)>,
    j: int,
    k: int,
    before: Seq<char>,
    indent: Seq<char>,
    pad: Seq<char>,
    gap: Seq<char>,
    quote: Seq<char>,
    behind: Seq<char>,
)
    requires
        maps_apart(maps),
        0 <= j < maps.len(),
        0 <= k < split(doc, "\n"@).len(),
        lead(before, indent, pad),
        blank(gap),
        blank(behind),
        is_quote(quote),
        split(doc, "\n"@)[k] == image_given(before, gap, quote, maps[j].0, behind),
    ensures
        split(images_injected(doc, maps), "\n"@).len() == split(doc, "\n"@).len(),
        split(images_injected(doc, maps), "\n"@)[k] == before + "image: "@ + maps[j].1
            || (maps[j].1 == maps[j].0 && split(images_injected(doc, maps), "\n"@)[k] == split(
            doc,
            "\n"@,
        )[k]),
        image_of_line(split(images_injected(doc, maps), "\n"@)[k]) == Some(maps[j].1),
{
    let e = Seq::<char>::empty();
    let image = maps[j].0;
    injected_lines(doc, maps);
    image_settled(image, maps, j);
    given_after(before, indent, pad, gap, quote, image, behind, maps);
    reveal_strlit(" ");
    reveal_strlit("image: ");
    reveal_strlit("image:");
    assert(is_space(" "@[0]));
    line_given(before, indent, pad, " "@, e, maps[j].1, e, e, e);
    line_given(before, indent, pad, gap, quote, image, behind, e, e);
    assert(before + "image: "@ + maps[j].1 =~= image_given(before, " "@, e, maps[j].1, e));
}

/// Lines that give no image, or one that no pair selects, stay as they are.
pub proof fn other_lines_kept(
    doc: Seq<char>,
    maps: Seq<(Seq<char>, Seq<char>)>,
    k: int,
    before: Seq<char>,
    indent: Seq<char>,
    pad: Seq<char>,
    gap: Seq<char>,
    quote: Seq<char>,
    image: Seq<char>,
    behind: Seq<char>,
)
    requires
        maps_apart(maps),
        0 <= k < split(doc, "\n"@).len(),
    ensures
        split(images_injected(doc, maps), "\n"@).len() == split(doc, "\n"@).len(),
        (forall|i: int| !#[trigger] matches_at(split(doc, "\n"@)[k], "image:"@, i)) ==> split(
            images_injected(doc, maps),
            "\n"@,
        )[k] == split(doc, "\n"@)[k],
        lead(before, indent, pad) && blank(gap) && blank(behind) && is_quote(quote) && image_name(
            image,
        ) && split(doc, "\n"@)[k] == image_given(before, gap, quote, image, behind) && (forall|
            i: int,
        |
            0 <= i < maps.len() ==> (#[trigger] maps[i]).0 != image) ==> split(
            images_injected(doc, maps),
            "\n"@,
        )[k] == split(doc, "\n"@)[k],
{
    injected_lines(doc, maps);
    let l = split(doc, "\n"@)[k];
    if forall|i: int| !#[trigger] matches_at(l, "image:"@, i) {
        keyless_kept(l, maps);
    }
    if lead(before, indent, pad) && blank(gap) && blank(behind) && is_quote(quote) && image_name(
        image,
    ) && l == image_given(before, gap, quote, image, behind) && (forall|i: int|
        0 <= i < maps.len() ==> (#[trigger] maps[i]).0 != image) {
        unselected_kept(before, indent, pad, gap, quote, image, behind, maps);
    }
}

proof fn keyless_kept(l: Seq<char>, maps: Seq<(Seq<char>, Seq<char>)>)
    requires
        forall|i: int| !#[trigger] matches_at(l, "image:"@, i),
    ensures
        line_after(l, maps) == l,
    decreases maps.len(),
{
    if maps.len() > 0 {
        keyless_kept(l, maps.drop_last());
        find_is_first(l, "image:"@, 0);
    }
}

proof fn unselected_kept(
    before: Seq<char>,
    indent: Seq<char>,
    pad: Seq<char>,
    gap: Seq<char>,
    quote: Seq<char>,
    image: Seq<char>,
    behind: Seq<char>,
    maps: Seq<(Seq<char>, Seq<char>)>,
)
    requires
        lead(before, indent, pad),
        blank(gap),
        blank(behind),
        is_quote(quote),
        image_name(image),
        forall|i: int| 0 <= i < maps.len() ==> (#[trigger] maps[i]).0 != image,
    ensures
        line_after(image_given(before, gap, quote, image, behind), maps) == image_given(
            before,
            gap,
            quote,
            image,
            behind,
        ),
    decreases maps.len(),
{
    if maps.len() > 0 {
        let d = maps.drop_last();
        assert forall|i: int| 0 <= i < d.len() implies (#[trigger] d[i]).0 != image by {
            assert(d[i] == maps[i]);
        }
        unselected_kept(before, indent, pad, gap, quote, image, behind, d);
        let m = maps.last();
        assert(m == maps[maps.len() - 1]);
        line_given(before, indent, pad, gap, quote, image, behind, m.0, m.1);
    }
}

/// What is trimmed off the front of a text is white space.
proof fn front_trimmed(s: Seq<char>)
    ensures
        trim_front(s, Class::Space).len() <= s.len(),
        trim_front(s, Class::Space) == s.skip(s.len() - trim_front(s, Class::Space).len()),
        blank(s.take(s.len() - trim_front(s, Class::Space).len())),
    decreases s.len(),
{
    if s.len() > 0 && is_space(s[0]) {
        let r = s.drop_first();
        front_trimmed(r);
        let n = r.len() - trim_front(r, Class::Space).len();
        assert(s.skip(n + 1) =~= r.skip(n));
        assert forall|i: int| 0 <= i < n + 1 implies is_space(#[trigger] s.take(n + 1)[i]) by {
            if i > 0 {
                assert(r.take(n)[i - 1] == s[i]);
            }
        }
    } else {
        assert(s.skip(0) =~= s);
    }
}

/// What is left of a text whose end is trimmed is its start.
proof fn back_trimmed(s: Seq<char>)
    ensures
        trim_back(s, Class::Space).len() <= s.len(),
        trim_back(s, Class::Space) == s.take(trim_back(s, Class::Space).len() as int),
    decreases s.len(),
{
    if s.len() > 0 && is_space(s.last()) {
        let r = s.drop_last();
        back_trimmed(r);
        let n = trim_back(r, Class::Space).len() as int;
        assert(s.take(n) =~= r.take(n));
    } else {
        assert(s.take(s.len() as int) =~= s);
    }
}

/// A line that gives an image does so behind white space and perhaps the mark of a list
/// item.
#[verifier::rlimit(40)]
proof fn given_behind_lead(l: Seq<char>) -> (r: (Seq<char>, Seq<char>, Seq<char>, Seq<char>))
    requires
        image_of_line(l) is Some,
    ensures
        lead(r.0, r.1, r.2),
        l == r.0 + "image:"@ + r.3,
{
    let f = trim_front(l, Class::Space);
    let t = trim(l);
    let n = l.len() - f.len();
    front_trimmed(l);
    back_trimmed(f);
    let indent = l.take(n);
    reveal_strlit("image:");
    reveal_strlit("- ");
    if starts_with(t, "- "@) {
        let rest = t.skip(2);
        let body = trim_front(rest, Class::Space);
        front_trimmed(rest);
        let m = rest.len() - body.len();
        let pad = rest.take(m);
        let before = indent + "- "@ + pad;
        let tail = l.skip(n + 2 + m + 6);
        assert(starts_with(body, "image:"@));
        assert forall|i: int| 0 <= i < l.len() implies #[trigger] l[i] == (before + "image:"@
            + tail)[i] by {
            if i < n {
            } else if i < n + 2 {
                assert(t.subrange(0, 2)[i - n] == "- "@[i - n]);
                assert(t[i - n] == f[i - n]);
                assert(f[i - n] == l[i]);
            } else if i < n + 2 + m {
                assert(pad[i - n - 2] == rest[i - n - 2]);
                assert(rest[i - n - 2] == t[i - n]);
                assert(t[i - n] == f[i - n]);
                assert(f[i - n] == l[i]);
            } else if i < n + 2 + m + 6 {
                let o = i - n - 2 - m;
                assert(body.subrange(0, 6)[o] == "image:"@[o]);
                assert(body[o] == rest[m + o]);
                assert(rest[m + o] == t[m + o + 2]);
                assert(t[m + o + 2] == f[m + o + 2]);
                assert(f[m + o + 2] == l[i]);
            }
        }
        assert(l =~= before + "image:"@ + tail);
        (before, indent, pad, tail)
    } else {
        let tail = l.skip(n + 6);
        assert(starts_with(t, "image:"@));
        assert forall|i: int| 0 <= i < l.len() implies #[trigger] l[i] == (indent + "image:"@
            + tail)[i] by {
            if n <= i < n + 6 {
                assert(t.subrange(0, 6)[i - n] == "image:"@[i - n]);
                assert(t[i - n] == f[i - n]);
                assert(f[i - n] == l[i]);
            }
        }
        assert(l =~= indent + "image:"@ + tail);
        (indent, indent, Seq::empty(), tail)
    }
}

/// A line after a replacement gives what it gave, unless that was selected: then it gives
/// the new image.
proof fn gives_after(l: Seq<char>, selector: Seq<char>, new: Seq<char>)
    requires
        image_name(new),
    ensures
        image_of_line(l) == Some(selector) ==> image_of_line(image_line(l, selector, new)) == Some(
            new,
        ),
        image_of_line(l) != Some(selector) ==> image_line(l, selector, new) == l,
{
    if image_of_line(l) == Some(selector) {
        let (before, indent, pad, tail) = given_behind_lead(l);
        key_found(before, indent, pad, tail, 0);
        let e = Seq::<char>::empty();
        reveal_strlit(" ");
        reveal_strlit("image:");
        reveal_strlit("image: ");
        assert(is_space(" "@[0]));
        line_given(before, indent, pad, " "@, e, new, e, e, e);
        assert(l.take(before.len() as int) =~= before);
        assert(before + "image: "@ + new =~= image_given(before, " "@, e, new, e));
    }
}

/// After images were injected no line gives an image that a pair selects, unless it is
/// that pair's own image; a line that gave another one gives it still.
pub proof fn no_selector_left(
    doc: Seq<char>,
    maps: Seq<(Seq<char>, Seq<char>)>,
    j: int,
    k: int,
)
    requires
        maps_apart(maps),
        0 <= j < maps.len(),
        0 <= k < split(doc, "\n"@).len(),
    ensures
        image_of_line(split(images_injected(doc, maps), "\n"@)[k]) == Some(maps[j].0) ==> maps[j].0
            == maps[j].1,
        image_of_line(split(doc, "\n"@)[k]) == Some(maps[j].0) ==> image_of_line(
            split(images_injected(doc, maps), "\n"@)[k],
        ) == Some(maps[j].1),
        (forall|i: int|
            0 <= i < maps.len() ==> image_of_line(split(doc, "\n"@)[k]) != Some(
                (#[trigger] maps[i]).0,
            )) ==> split(images_injected(doc, maps), "\n"@)[k] == split(doc, "\n"@)[k],
{
    injected_lines(doc, maps);
    settled_line(split(doc, "\n"@)[k], maps, j);
}

proof fn settled_line(l: Seq<char>, maps: Seq<(Seq<char>, Seq<char>)>, j: int)
    requires
        maps_apart(maps),
        0 <= j < maps.len(),
    ensures
        image_of_line(line_after(l, maps)) == Some(maps[j].0) ==> maps[j].0 == maps[j].1,
        image_of_line(l) == Some(maps[j].0) ==> image_of_line(line_after(l, maps)) == Some(
            maps[j].1,
        ),
        (forall|i: int|
            0 <= i < maps.len() ==> image_of_line(l) != Some((#[trigger] maps[i]).0))
            ==> line_after(l, maps) == l,
    decreases maps.len(),
{
    let d = maps.drop_last();
    let m = maps.last();
    assert(m == maps[maps.len() - 1]);
    assert forall|i: int| 0 <= i < d.len() implies d[i] == maps[i] by {}
    assert(maps_apart(d));
    gives_after(line_after(l, d), m.0, m.1);
    if j < d.len() {
        settled_line(l, d, j);
        assert(maps[j].1 != maps[maps.len() - 1].0);
        assert(maps[maps.len() - 1].1 != maps[j].0);
    } else {
        if d.len() > 0 {
            settled_line(l, d, 0);
            if image_of_line(l) == Some(m.0) {
                assert forall|i: int| 0 <= i < d.len() implies image_of_line(l) != Some(
                    (#[trigger] d[i]).0,
                ) by {
                    assert(maps[i].0 != maps[maps.len() - 1].0);
                }
            }
        }
    }
}

/// Whether no document ends within a text, nor where the mark stands behind it.
pub open spec fn one_document(doc: Seq<char>) -> bool {
    forall|i: int|
        0 <= i < doc.len() ==> #[trigger] (doc + "\n---\n"@).subrange(i, i + 5) != "\n---\n"@
}

proof fn mark_found(a: Seq<char>, b: Seq<char>, from: int)
    requires
        one_document(a),
        0 <= from <= a.len(),
    ensures
        find_from(a + "\n---\n"@ + b, "\n---\n"@, from) == Some(a.len() as int),
    decreases a.len() - from,
{
    reveal_strlit("\n---\n");
    let s = a + "\n---\n"@ + b;
    if from < a.len() {
        assert(s.subrange(from, from + 5) =~= (a + "\n---\n"@).subrange(from, from + 5));
        mark_found(a, b, from + 1);
    } else {
        assert(s.subrange(from, from + 5) =~= "\n---\n"@);
    }
}

proof fn no_mark(a: Seq<char>, from: int)
    requires
        one_document(a),
        0 <= from,
    ensures
        find_from(a, "\n---\n"@, from) is None,
    decreases a.len() - from,
{
    reveal_strlit("\n---\n");
    if from + 5 <= a.len() {
        assert(a.subrange(from, from + 5) =~= (a + "\n---\n"@).subrange(from, from + 5));
        no_mark(a, from + 1);
    }
}

/// Images are injected into each document on its own, however many there are, and the
/// marks between them stay.
pub proof fn documents_apart(a: Seq<char>, b: Seq<char>, maps: Seq<(Seq<char>, Seq<char>)>)
    requires
        one_document(a),
    ensures
        docs_injected(a, maps) == images_injected(a, maps),
        docs_injected(a + "\n---\n"@ + b, maps) == docs_injected(a, maps) + "\n---\n"@
            + docs_injected(b, maps),
{
    let sep = "\n---\n"@;
    let s = a + sep + b;
    reveal_strlit("\n---\n");
    no_mark(a, 0);
    mark_found(a, b, 0);
    let f = |d: Seq<char>| images_injected(d, maps);
    assert(split(a, sep) =~= seq![a]);
    assert(seq![a].map_values(f) =~= seq![images_injected(a, maps)]);
    assert(s.take(a.len() as int) =~= a);
    assert(s.skip((a.len() + 5) as int) =~= b);
    assert(split(s, sep) == seq![a] + split(b, sep));
    assert((seq![a] + split(b, sep)).map_values(f) =~= seq![images_injected(a, maps)] + split(
        b,
        sep,
    ).map_values(f));
    split_some(b, sep);
    join_front(images_injected(a, maps), split(b, sep).map_values(f), sep);
}

proof fn split_some(s: Seq<char>, p: Seq<char>)
    ensures
        split(s, p).len() > 0,
{
}

} // verus!
