//! When a run that brings the project up once is over.

use vstd::prelude::*;
use vstd::string::*;

use crate::api::v1alpha1::UIResource;
use crate::text::{
    cat3, chars_of, dec, decimal, digit_char, is_digit, owned, parse_uint, parsed, same, string_of,
    texts, texts_push, trim, trimmed,
};

verus! {

/// The seconds in a unit.
pub open spec fn unit_secs(c: char) -> Option<nat> {
    if c == 's' {
        Some(1)
    } else if c == 'm' {
        Some(60)
    } else if c == 'h' {
        Some(3600)
    } else {
        None
    }
}

/// How far a duration has been read behind the text `s`: the seconds so far, and the
/// digits that have no unit yet. Nothing where it cannot be read.
pub open spec fn read_duration(s: Seq<char>) -> Option<(nat, Seq<char>)>
    decreases s.len(),
{
    if s.len() == 0 {
        Some((0, Seq::empty()))
    } else {
        match read_duration(s.drop_last()) {
            Some((total, num)) => if is_digit(s.last()) {
                Some((total, num.push(s.last())))
            } else {
                match (parsed(num, u64::MAX as nat), unit_secs(s.last())) {
                    (Some(n), Some(unit)) => Some((total + n * unit, Seq::empty())),
                    _ => None,
                }
            },
            None => None,
        }
    }
}

/// A duration as a text: seconds, or numbers with units. Nothing where it cannot be
/// read, or is too long for a 64-bit number of seconds.
pub open spec fn duration(text: Seq<char>) -> Option<nat> {
    let s = trim(text);
    if s.len() == 0 {
        None
    } else if parsed(s, u64::MAX as nat) is Some {
        parsed(s, u64::MAX as nat)
    } else {
        match read_duration(s) {
            Some((total, num)) => if num.len() == 0 && total <= u64::MAX {
                Some(total)
            } else {
                None
            },
            None => None,
        }
    }
}

/// What cannot be read stays so, and the seconds do not become fewer.
proof fn reading_grows(s: Seq<char>, i: int)
    requires
        0 <= i <= s.len(),
    ensures
        match read_duration(s) {
            Some((total, _)) => match read_duration(s.take(i)) {
                Some((before, _)) => before <= total,
                None => false,
            },
            None => true,
        },
    decreases s.len() - i,
{
    if i < s.len() {
        let t = s.take(i + 1);
        assert(t.drop_last() =~= s.take(i));
        reading_grows(s, i + 1);
        if read_duration(t) is Some && !is_digit(t.last()) {
            let n = parsed((read_duration(s.take(i))->0).1, u64::MAX as nat)->0;
            let unit = unit_secs(t.last())->0;
            assert(0 <= n * unit) by (nonlinear_arith)
                requires
                    0 <= n,
                    0 <= unit,
            ;
        }
    } else {
        assert(s.take(i) =~= s);
    }
}

/// A duration in seconds, such as `90s`, `1h30m` or a bare `300`. Nothing where the
/// text is no duration, or one too long for a 64-bit number.
pub fn parse_duration_secs(s: &str) -> (r: Option<u64>)
    ensures
        match r {
            Some(n) => duration(s@) == Some(n as nat),
            None => duration(s@) is None,
        },
{
    let t = trimmed(s);
    if t.as_str().is_empty() {
        return None;
    }
    if let Some(n) = parse_uint(t.as_str(), u64::MAX) {
        return Some(n);
    }
    let c = chars_of(t.as_str());
    let mut total: u64 = 0;
    let mut num: Vec<char> = Vec::new();
    let mut i: usize = 0;
    assert(c@.take(0) =~= Seq::empty());
    assert(num@ =~= Seq::empty());
    while i < c.len()
        invariant
            i <= c@.len(),
            c@ == trim(s@),
            c@.len() > 0,
            parsed(c@, u64::MAX as nat) is None,
            read_duration(c@.take(i as int)) == Some((total as nat, num@)),
        decreases c@.len() - i,
    {
        let ch = c[i];
        proof {
            assert(c@.take(i + 1).drop_last() =~= c@.take(i as int));
            assert(c@.take(i + 1).last() == ch);
            reading_grows(c@, i + 1);
        }
        if digit_char(ch) {
            num.push(ch);
        } else {
            let text = string_of(num.as_slice());
            let n: u64 = match parse_uint(text.as_str(), u64::MAX) {
                Some(n) => n,
                None => return None,
            };
            let unit: u64 = if ch == 's' {
                1
            } else if ch == 'm' {
                60
            } else if ch == 'h' {
                3600
            } else {
                return None;
            };
            assert(n as int * unit as int <= u64::MAX * 3600) by (nonlinear_arith)
                requires
                    n <= u64::MAX,
                    unit <= 3600,
            ;
            let sum: u128 = total as u128 + n as u128 * unit as u128;
            if sum > u64::MAX as u128 {
                return None;
            }
            total = sum as u64;
            num = Vec::new();
            assert(num@ =~= Seq::empty());
        }
        i += 1;
    }
    assert(c@.take(i as int) =~= c@);
    if num.len() > 0 {
        return None;
    }
    Some(total)
}

/// The state of a run that brings the project up once.
#[derive(Debug, Clone, Copy, PartialEq, Eq, Structural)]
pub enum CiOutcome {
    /// A resource is still building or not ready yet.
    Pending,
    /// Every enabled resource is built and has settled.
    Done,
    /// The build or the runtime of a resource failed.
    Failed,
}

/// A status, `none` where it is not set.
pub open spec fn status_or_none(o: Option<String>) -> Seq<char> {
    match o {
        Some(s) => s@,
        None => "none"@,
    }
}

/// The status of a resource's last build.
pub open spec fn update_of(r: UIResource) -> Seq<char> {
    match r.status {
        Some(s) => status_or_none(s.update_status),
        None => "none"@,
    }
}

/// The status of what a resource runs.
pub open spec fn runtime_of(r: UIResource) -> Seq<char> {
    match r.status {
        Some(s) => status_or_none(s.runtime_status),
        None => "none"@,
    }
}

/// Whether a resource is switched off.
pub open spec fn disabled(r: UIResource) -> bool {
    match r.status {
        Some(s) => match s.disable_status {
            Some(d) => d.state@ == "Disabled"@,
            None => false,
        },
        None => false,
    }
}

/// Whether a resource failed.
pub open spec fn failed(r: UIResource) -> bool {
    update_of(r) == "error"@ || runtime_of(r) == "error"@
}

/// Whether a resource is built and has nothing left to wait for.
pub open spec fn settled(r: UIResource) -> bool {
    &&& (update_of(r) == "ok"@ || update_of(r) == "not_applicable"@)
    &&& (runtime_of(r) == "ok"@ || runtime_of(r) == "not_applicable"@ || runtime_of(r) == "none"@)
}

/// The state of a run: failed where an enabled resource did, over where all of them
/// have settled.
pub open spec fn outcome(rs: Seq<UIResource>) -> CiOutcome {
    if exists|i: int| 0 <= i < rs.len() && !disabled(#[trigger] rs[i]) && failed(rs[i]) {
        CiOutcome::Failed
    } else if forall|i: int| 0 <= i < rs.len() ==> disabled(#[trigger] rs[i]) || settled(rs[i]) {
        CiOutcome::Done
    } else {
        CiOutcome::Pending
    }
}

/// Whether a status counts as built.
fn update_settled_ok(status: &str) -> (r: bool)
    ensures
        r == (status@ == "ok"@ || status@ == "not_applicable"@),
{
    same(status, "ok") || same(status, "not_applicable")
}

/// Whether a status counts as settled.
fn runtime_settled_ok(status: &str) -> (r: bool)
    ensures
        r == (status@ == "ok"@ || status@ == "not_applicable"@ || status@ == "none"@),
{
    same(status, "ok") || same(status, "not_applicable") || same(status, "none")
}

/// Whether a resource is switched off.
pub fn is_disabled(r: &UIResource) -> (d: bool)
    ensures
        d == disabled(*r),
{
    match &r.status {
        Some(s) => match &s.disable_status {
            Some(d) => same(d.state.as_str(), "Disabled"),
            None => false,
        },
        None => false,
    }
}

fn or_none(o: &Option<String>) -> (r: &str)
    ensures
        r@ == status_or_none(*o),
{
    match o {
        Some(s) => s.as_str(),
        None => "none",
    }
}

fn update_status_of(r: &UIResource) -> (s: &str)
    ensures
        s@ == update_of(*r),
{
    match &r.status {
        Some(s) => or_none(&s.update_status),
        None => "none",
    }
}

fn runtime_status_of(r: &UIResource) -> (s: &str)
    ensures
        s@ == runtime_of(*r),
{
    match &r.status {
        Some(s) => or_none(&s.runtime_status),
        None => "none",
    }
}

/// The state of a run with the given resources.
pub fn ci_outcome(resources: &[UIResource]) -> (r: CiOutcome)
    ensures
        r == outcome(resources@),
{
    let mut all_settled = true;
    let mut i: usize = 0;
    while i < resources.len()
        invariant
            i <= resources@.len(),
            forall|j: int|
                0 <= j < i ==> disabled(#[trigger] resources@[j]) || !failed(resources@[j]),
            all_settled == (forall|j: int|
                0 <= j < i ==> disabled(#[trigger] resources@[j]) || settled(resources@[j])),
        decreases resources@.len() - i,
    {
        let r = &resources[i];
        if !is_disabled(r) {
            let update = update_status_of(r);
            let runtime = runtime_status_of(r);
            if same(update, "error") || same(runtime, "error") {
                assert(failed(resources@[i as int]));
                return CiOutcome::Failed;
            }
            if !(update_settled_ok(update) && runtime_settled_ok(runtime)) {
                all_settled = false;
                assert(!settled(resources@[i as int]));
            }
        }
        i += 1;
    }
    if all_settled {
        CiOutcome::Done
    } else {
        CiOutcome::Pending
    }
}

/// The line that tells of a failed resource.
pub open spec fn failure_line(r: UIResource) -> Seq<char> {
    let name = match r.metadata {
        Some(m) => m.name@,
        None => "(unknown)"@,
    };
    "  "@ + name + ": update="@ + update_of(r) + " runtime="@ + runtime_of(r)
}

/// The lines that tell of the failed resources.
pub open spec fn failure_lines(rs: Seq<UIResource>) -> Seq<Seq<char>>
    decreases rs.len(),
{
    if rs.len() == 0 {
        Seq::empty()
    } else if failed(rs.last()) {
        failure_lines(rs.drop_last()).push(failure_line(rs.last()))
    } else {
        failure_lines(rs.drop_last())
    }
}

/// What a run does next.
#[derive(Debug, PartialEq)]
pub enum CiStep {
    /// It goes on waiting.
    Wait,
    /// It ends well.
    Up(String),
    /// It ends because resources failed, or because they took too long.
    Fail(Vec<String>),
}

/// How long a run may take: as the command line says, else as the config says.
pub fn ci_timeout_secs(arg: Option<u64>, config: Option<u64>) -> (r: u64)
    ensures
        r == (match (arg, config) {
            (Some(a), _) => a,
            (None, Some(c)) => c,
            (None, None) => 300,
        }),
{
    match arg {
        Some(a) => a,
        None => match config {
            Some(c) => c,
            None => 300,
        },
    }
}

/// What a run does once it has waited for `elapsed_ms`. Nothing is decided before
/// `expected` resources are known.
pub fn ci_step(expected: usize, resources: &Vec<UIResource>, elapsed_ms: u64, timeout_secs: u64) -> (r:
    CiStep)
    ensures
        ({
            let known = resources@.len() >= expected;
            let late = elapsed_ms >= timeout_secs * 1000 || elapsed_ms == u64::MAX;
            match r {
                CiStep::Up(m) => known && outcome(resources@) == CiOutcome::Done && m@
                    == "starling ci: all "@ + dec(expected as nat) + " resource(s) are up."@,
                CiStep::Fail(lines) => if known && outcome(resources@) == CiOutcome::Failed {
                    texts(lines@) == seq!["starling ci: one or more resources failed:"@]
                        + failure_lines(resources@)
                } else {
                    late && !(known && outcome(resources@) == CiOutcome::Done) && texts(lines@)
                        == seq![
                        "starling ci: timed out after "@ + dec(timeout_secs as nat)
                            + "s before all resources settled"@,
                    ]
                },
                CiStep::Wait => !late && (!known || outcome(resources@) == CiOutcome::Pending),
            }
        }),
{
    broadcast use texts_push;

    if resources.len() >= expected {
        match ci_outcome(resources.as_slice()) {
            CiOutcome::Done => {
                return CiStep::Up(
                    cat3(
                        "starling ci: all ",
                        decimal(expected as u64).as_str(),
                        " resource(s) are up.",
                    ),
                );
            },
            CiOutcome::Failed => {
                let mut lines: Vec<String> = Vec::new();
                lines.push(owned("starling ci: one or more resources failed:"));
                let ghost head = seq!["starling ci: one or more resources failed:"@];
                let mut i: usize = 0;
                assert(texts(lines@) =~= head + failure_lines(resources@.take(0)));
                while i < resources.len()
                    invariant
                        i <= resources@.len(),
                        texts(lines@) == head + failure_lines(resources@.take(i as int)),
                    decreases resources@.len() - i,
                {
                    let r = &resources[i];
                    let ghost before = failure_lines(resources@.take(i as int));
                    proof {
                        assert(resources@.take(i + 1).drop_last() =~= resources@.take(i as int));
                        assert(resources@.take(i + 1).last() == *r);
                    }
                    let update = update_status_of(r);
                    let runtime = runtime_status_of(r);
                    if same(update, "error") || same(runtime, "error") {
                        let name = match &r.metadata {
                            Some(m) => m.name.as_str(),
                            None => "(unknown)",
                        };
                        let mut l = cat3("  ", name, ": update=");
                        l.append(update);
                        l.append(" runtime=");
                        l.append(runtime);
                        lines.push(l);
                        assert(head + before.push(l@) =~= (head + before).push(l@));
                    }
                    i += 1;
                }
                assert(resources@.take(i as int) =~= resources@);
                return CiStep::Fail(lines);
            },
            CiOutcome::Pending => {},
        }
    }
    let limit: u64 = if timeout_secs <= u64::MAX / 1000 {
        timeout_secs * 1000
    } else {
        u64::MAX
    };
    if elapsed_ms >= limit {
        let mut lines: Vec<String> = Vec::new();
        lines.push(
            cat3(
                "starling ci: timed out after ",
                decimal(timeout_secs).as_str(),
                "s before all resources settled",
            ),
        );
        assert(texts(lines@) =~= seq![
            "starling ci: timed out after "@ + dec(timeout_secs as nat)
                + "s before all resources settled"@,
        ]);
        return CiStep::Fail(lines);
    }
    CiStep::Wait
}

} // verus!
