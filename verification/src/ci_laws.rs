//! When a run ends and how, whatever the resources are.

use vstd::prelude::*;
use vstd::string::*;

use crate::api::v1alpha1::UIResource;
use crate::ci::{duration, failure_lines, outcome, read_duration, unit_secs, CiOutcome};
use crate::text::{all_digits, dec, dec_is_digits, is_digit, is_space, parsed, parsed_dec, trim};
use crate::text_laws::{blank, snug, trims_around};

verus! {

/// Whether the update status of a resource is the given one.
pub open spec fn update_is(r: UIResource, status: Seq<char>) -> bool {
    r.status matches Some(s) && s.update_status matches Some(t) && t@ == status
}

/// Whether the runtime status of a resource is the given one.
pub open spec fn runtime_is(r: UIResource, status: Seq<char>) -> bool {
    r.status matches Some(s) && s.runtime_status matches Some(t) && t@ == status
}

/// Whether nothing is known of the runtime of a resource.
pub open spec fn runtime_unset(r: UIResource) -> bool {
    r.status matches Some(s) ==> s.runtime_status is None
}

/// Whether a resource is disabled.
pub open spec fn switched_off(r: UIResource) -> bool {
    r.status matches Some(s) && s.disable_status matches Some(d) && d.state@ == "Disabled"@
}

/// Whether the build or the runtime of a resource is in error.
pub open spec fn broken(r: UIResource) -> bool {
    update_is(r, "error"@) || runtime_is(r, "error"@)
}

/// Whether a resource is built and up, or has nothing to build or run.
pub open spec fn up(r: UIResource) -> bool {
    &&& update_is(r, "ok"@) || update_is(r, "not_applicable"@)
    &&& runtime_is(r, "ok"@) || runtime_is(r, "not_applicable"@) || runtime_is(r, "none"@)
        || runtime_unset(r)
}

proof fn statuses_read(r: UIResource)
    ensures
        crate::ci::disabled(r) == switched_off(r),
        crate::ci::failed(r) == broken(r),
        crate::ci::settled(r) == up(r),
        up(r) ==> !broken(r),
{
    reveal_strlit("none");
    reveal_strlit("error");
    reveal_strlit("ok");
    reveal_strlit("not_applicable");
    assert("none"@.len() == 4 && "error"@.len() == 5 && "ok"@.len() == 2
        && "not_applicable"@.len() == 14);
}

/// A run fails just where an enabled resource is in error; it is done just where every
/// enabled resource is up; else it goes on. Of disabled resources nothing is asked.
pub proof fn outcome_told(rs: Seq<UIResource>)
    ensures
        outcome(rs) == CiOutcome::Failed <==> exists|i: int|
            0 <= i < rs.len() && !switched_off(#[trigger] rs[i]) && broken(rs[i]),
        outcome(rs) == CiOutcome::Done <==> forall|i: int|
            0 <= i < rs.len() ==> switched_off(#[trigger] rs[i]) || up(rs[i]),
        outcome(rs) == CiOutcome::Pending <==> {
            &&& forall|i: int| 0 <= i < rs.len() ==> switched_off(#[trigger] rs[i]) || !broken(rs[i])
            &&& exists|i: int| 0 <= i < rs.len() && !switched_off(#[trigger] rs[i]) && !up(rs[i])
        },
{
    assert forall|i: int| 0 <= i < rs.len() implies {
        &&& crate::ci::disabled(#[trigger] rs[i]) == switched_off(rs[i])
        &&& crate::ci::failed(rs[i]) == broken(rs[i])
        &&& crate::ci::settled(rs[i]) == up(rs[i])
        &&& up(rs[i]) ==> !broken(rs[i])
    } by {
        statuses_read(rs[i]);
    }
}

/// A disabled resource changes nothing, whatever its state.
pub proof fn disabled_ignored(rs: Seq<UIResource>, r: UIResource)
    requires
        switched_off(r),
    ensures
        outcome(rs.push(r)) == outcome(rs),
{
    let more = rs.push(r);
    outcome_told(rs);
    outcome_told(more);
    assert(more[rs.len() as int] == r);
    assert forall|i: int| 0 <= i < rs.len() implies more[i] == rs[i] by {}
    if exists|i: int| 0 <= i < rs.len() && !switched_off(#[trigger] rs[i]) && broken(rs[i]) {
        let i = choose|i: int|
            0 <= i < rs.len() && !switched_off(#[trigger] rs[i]) && broken(rs[i]);
        assert(more[i] == rs[i]);
    }
    if exists|i: int| 0 <= i < rs.len() && !switched_off(#[trigger] rs[i]) && !up(rs[i]) {
        let i = choose|i: int| 0 <= i < rs.len() && !switched_off(#[trigger] rs[i]) && !up(rs[i]);
        assert(more[i] == rs[i]);
    }
}

/// Every resource in error is reported with its name and both statuses, in order, and no
/// other is.
pub proof fn failures_reported(
    a: Seq<UIResource>,
    b: Seq<UIResource>,
    r: UIResource,
    update: Seq<char>,
    runtime: Seq<char>,
)
    requires
        update_is(r, update),
        runtime_is(r, runtime),
    ensures
        failure_lines(a + b) == failure_lines(a) + failure_lines(b),
        update == "error"@ || runtime == "error"@ ==> failure_lines(seq![r]) == seq![
            "  "@ + (match r.metadata {
                Some(m) => m.name@,
                None => "(unknown)"@,
            }) + ": update="@ + update + " runtime="@ + runtime,
        ],
        update != "error"@ && runtime != "error"@ ==> failure_lines(seq![r]) == Seq::<
            Seq<char>,
        >::empty(),
    decreases b.len(),
{
    reveal_with_fuel(failure_lines, 2);
    assert(seq![r].drop_last() =~= Seq::empty());
    statuses_read(r);
    if update == "error"@ || runtime == "error"@ {
        assert(failure_lines(seq![r]) =~= seq![crate::ci::failure_line(r)]);
    }
    if b.len() > 0 {
        assert((a + b).drop_last() =~= a + b.drop_last());
        assert((a + b).last() == b.last());
        failures_reported(a, b.drop_last(), r, update, runtime);
        assert(failure_lines(a + b) =~= failure_lines(a) + failure_lines(b));
    } else {
        assert(a + b =~= a);
        assert(failure_lines(a) + failure_lines(b) =~= failure_lines(a));
    }
}

/// Digits are read into the number before the next unit.
proof fn digits_read(s: Seq<char>, t: nat, d: Seq<char>)
    requires
        read_duration(s) == Some((t, Seq::<char>::empty())),
        all_digits(d),
    ensures
        read_duration(s + d) == Some((t, d)),
    decreases d.len(),
{
    if d.len() > 0 {
        let e = d.drop_last();
        assert forall|i: int| 0 <= i < e.len() implies is_digit(#[trigger] e[i]) by {
            assert(e[i] == d[i]);
        }
        digits_read(s, t, e);
        assert((s + d).drop_last() =~= s + e);
        assert((s + d).last() == d.last());
        assert(is_digit(d[d.len() - 1]));
        assert(e.push(d.last()) =~= d);
    } else {
        assert(s + d =~= s);
        assert(d =~= Seq::empty());
    }
}

/// One more part of a duration.
proof fn part_read(s: Seq<char>, t: nat, n: u64, c: char)
    requires
        read_duration(s) == Some((t, Seq::<char>::empty())),
        !is_digit(c),
    ensures
        read_duration(s + dec(n as nat) + seq![c]) == (match unit_secs(c) {
            Some(u) => Some((t + (n as nat) * u, Seq::<char>::empty())),
            None => None,
        }),
{
    let d = dec(n as nat);
    dec_is_digits(n as nat);
    parsed_dec(n as nat, u64::MAX as nat);
    digits_read(s, t, d);
    let all = s + d + seq![c];
    assert(all.drop_last() =~= s + d);
    assert(all.last() == c);
}

/// A text with a character that is neither a digit nor a plus sign is no number.
proof fn no_number(s: Seq<char>, i: int)
    requires
        0 <= i < s.len(),
        !is_digit(s[i]),
        s[i] != '+',
    ensures
        parsed(s, u64::MAX as nat) is None,
{
    if s[0] == '+' {
        assert(s.drop_first()[i - 1] == s[i]);
    }
}

/// A number alone counts seconds, and so does one with an `s`; with an `m` it counts
/// minutes, with an `h` hours. With any other sign it is no duration, nor is nothing.
pub proof fn duration_told(n: u64, c: char)
    requires
        !is_space(c),
        !is_digit(c),
    ensures
        duration(dec(n as nat)) == Some(n as nat),
        duration(dec(n as nat) + "s"@) == Some(n as nat),
        n * 60 <= u64::MAX ==> duration(dec(n as nat) + "m"@) == Some((n * 60) as nat),
        n * 3600 <= u64::MAX ==> duration(dec(n as nat) + "h"@) == Some((n * 3600) as nat),
        c != 's' && c != 'm' && c != 'h' ==> duration(dec(n as nat) + seq![c]) is None,
        duration(Seq::empty()) is None,
{
    let e = Seq::<char>::empty();
    let d = dec(n as nat);
    reveal_strlit("s");
    reveal_strlit("m");
    reveal_strlit("h");
    assert("s"@ =~= seq!['s']);
    assert("m"@ =~= seq!['m']);
    assert("h"@ =~= seq!['h']);
    dec_is_digits(n as nat);
    parsed_dec(n as nat, u64::MAX as nat);
    assert(is_digit(d[0]));
    assert(is_digit(d[d.len() - 1]));
    assert(e + d + e =~= d);
    trims_around(e, d, e);
    one_part(n, 's');
    assert(unit_secs('s') == Some(1nat));
    assert((n as nat) * 1nat == n as nat);
    one_part(n, 'm');
    one_part(n, 'h');
    one_part(n, c);
    assert(trim(e) =~= e) by {
        crate::text_laws::trims_blank(e);
    }
}

proof fn one_part(n: u64, c: char)
    requires
        !is_space(c),
        !is_digit(c),
    ensures
        duration(dec(n as nat) + seq![c]) == (match unit_secs(c) {
            Some(u) => if (n as nat) * u <= u64::MAX {
                Some((n as nat) * u)
            } else {
                None
            },
            None => None,
        }),
{
    let e = Seq::<char>::empty();
    let d = dec(n as nat);
    let s = d + seq![c];
    dec_is_digits(n as nat);
    assert(is_digit(d[0]));
    assert(s[0] == d[0]);
    assert(s.last() == c);
    assert(e + s + e =~= s);
    trims_around(e, s, e);
    part_read(e, 0, n, c);
    assert(e + d + seq![c] =~= s);
    if c == '+' {
        assert(!is_digit(s[s.len() - 1]));
        if parsed(s, u64::MAX as nat) is Some {
            assert(s[0] != '+');
            assert(is_digit(s[s.len() - 1]));
        }
    } else {
        no_number(s, s.len() - 1);
    }
}

/// Parts of a duration add up, however many there are, and white space around them means
/// nothing.
pub proof fn durations_add_up(
    s: Seq<char>,
    t: nat,
    n: u64,
    left: Seq<char>,
    right: Seq<char>,
)
    requires
        snug(s),
        s.last() == 's' || s.last() == 'm' || s.last() == 'h',
        duration(s) == Some(t),
        blank(left),
        blank(right),
    ensures
        duration(left + s + right) == Some(t),
        t + n <= u64::MAX ==> duration(s + dec(n as nat) + "s"@) == Some((t + n) as nat),
        t + n * 60 <= u64::MAX ==> duration(s + dec(n as nat) + "m"@) == Some((t + n * 60) as nat),
        t + n * 3600 <= u64::MAX ==> duration(s + dec(n as nat) + "h"@) == Some(
            (t + n * 3600) as nat,
        ),
        duration(s + dec(n as nat)) is None,
{
    let e = Seq::<char>::empty();
    let d = dec(n as nat);
    reveal_strlit("s");
    reveal_strlit("m");
    reveal_strlit("h");
    assert("s"@ =~= seq!['s']);
    assert("m"@ =~= seq!['m']);
    assert("h"@ =~= seq!['h']);
    assert(e + s + e =~= s);
    trims_around(e, s, e);
    trims_around(left, s, right);
    no_number(s, s.len() - 1);
    assert(read_duration(s) is Some);
    assert((read_duration(s)->0).1 =~= e);
    assert(read_duration(s) == Some((t, e)));
    dec_is_digits(n as nat);
    digits_read(s, t, d);
    let x = s + d;
    assert(x[0] == s[0]);
    assert(x.last() == d.last());
    assert(is_digit(d[d.len() - 1]));
    assert(e + x + e =~= x);
    trims_around(e, x, e);
    assert(x[s.len() - 1] == s.last());
    no_number(x, s.len() - 1);
    more_read(s, t, n, 's');
    more_read(s, t, n, 'm');
    more_read(s, t, n, 'h');
}

proof fn more_read(s: Seq<char>, t: nat, n: u64, c: char)
    requires
        snug(s),
        !is_digit(s.last()),
        s.last() != '+',
        read_duration(s) == Some((t, Seq::<char>::empty())),
        c == 's' || c == 'm' || c == 'h',
    ensures
        t + (n as nat) * unit_secs(c)->0 <= u64::MAX ==> duration(s + dec(n as nat) + seq![c])
            == Some(t + (n as nat) * unit_secs(c)->0),
{
    let e = Seq::<char>::empty();
    let d = dec(n as nat);
    let x = s + d + seq![c];
    dec_is_digits(n as nat);
    part_read(s, t, n, c);
    assert(x[0] == s[0]);
    assert(x.last() == c);
    assert(e + x + e =~= x);
    trims_around(e, x, e);
    assert(x[s.len() - 1] == s.last());
    no_number(x, s.len() - 1);
}

} // verus!
