//! The history of image builds.

use vstd::prelude::*;
use vstd::string::*;

use crate::daemon::protocol::{is_state_file, state_file};
use crate::paths::{components, components_of};
use crate::text::{cat, cat3, dec, decimal, owned, same, texts};

verus! {

/// One image build.
#[derive(Debug, PartialEq)]
pub struct DockerBuildRecord {
    /// The image that was built.
    pub image_ref: String,
    /// The resource that it was built for.
    pub resource: String,
    /// The project of the resource.
    pub project: String,
    /// When the build started, as RFC 3339 writes it.
    pub started_at: String,
    /// How long the build took.
    pub duration_ms: u64,
    /// Whether it succeeded.
    pub success: bool,
    /// The size of the build context; zero where it is not known.
    pub context_bytes: u64,
}

/// `n` over `d`, rounded to the nearest integer, to the even one of two.
pub open spec fn half_even(n: int, d: int) -> int
    recommends
        n >= 0,
        d > 0,
{
    let q = n / d;
    let r = n % d;
    if 2 * r > d || (2 * r == d && q % 2 == 1) {
        q + 1
    } else {
        q
    }
}

fn round_half_even(n: u128, d: u128) -> (r: u128)
    requires
        0 < d,
        2 * d <= u128::MAX,
        n < u128::MAX,
    ensures
        r == half_even(n as int, d as int),
        r <= n + 1,
{
    let q: u128 = n / d;
    let m: u128 = n % d;
    assert(q <= n) by (nonlinear_arith)
        requires
            q == n / d,
            d > 0,
            n >= 0,
    ;
    if 2 * m > d || (2 * m == d && q % 2 == 1) {
        q + 1
    } else {
        q
    }
}

/// A number of tenths, with one digit behind the point.
pub open spec fn one_decimal(tenths: nat) -> Seq<char> {
    dec(tenths / 10) + "."@ + dec(tenths % 10)
}

fn with_one_decimal(tenths: u64) -> (r: String)
    ensures
        r@ == one_decimal(tenths as nat),
{
    cat3(decimal(tenths / 10).as_str(), ".", decimal(tenths % 10).as_str())
}

/// The unit in the last place of a double between one and sixty four: the power of
/// two that it is one over.
pub open spec fn double_scale(whole: int) -> int {
    if whole < 2 {
        0x10_0000_0000_0000
    } else if whole < 4 {
        0x8_0000_0000_0000
    } else if whole < 8 {
        0x4_0000_0000_0000
    } else if whole < 16 {
        0x2_0000_0000_0000
    } else if whole < 32 {
        0x1_0000_0000_0000
    } else {
        0x8000_0000_0000
    }
}

/// The tenths of the double nearest to `ms` thousandths, rounded, for a time between
/// one second and a minute.
pub open spec fn second_tenths(ms: int) -> int {
    let scale = double_scale(ms / 1000);
    half_even(half_even(ms * scale, 1000) * 10, scale)
}

/// A duration as it is shown.
pub open spec fn duration_text(ms: int) -> Seq<char> {
    if ms < 1000 {
        dec(ms as nat) + "ms"@
    } else if ms < 60000 {
        one_decimal(second_tenths(ms) as nat) + "s"@
    } else {
        let secs = ms / 1000;
        let rest = dec((secs % 60) as nat);
        dec((secs / 60) as nat) + "m"@ + (if secs % 60 < 10 {
            "0"@ + rest
        } else {
            rest
        }) + "s"@
    }
}

/// The double nearest to a number of bytes: the number itself up to 53 bits, else the
/// multiple of a power of two.
pub open spec fn nearest_double(b: int) -> int {
    if b < 0x20_0000_0000_0000 {
        b
    } else if b < 0x40_0000_0000_0000 {
        half_even(b, 2) * 2
    } else if b < 0x80_0000_0000_0000 {
        half_even(b, 4) * 4
    } else if b < 0x100_0000_0000_0000 {
        half_even(b, 8) * 8
    } else if b < 0x200_0000_0000_0000 {
        half_even(b, 16) * 16
    } else if b < 0x400_0000_0000_0000 {
        half_even(b, 32) * 32
    } else if b < 0x800_0000_0000_0000 {
        half_even(b, 64) * 64
    } else if b < 0x1000_0000_0000_0000 {
        half_even(b, 128) * 128
    } else if b < 0x2000_0000_0000_0000 {
        half_even(b, 256) * 256
    } else if b < 0x4000_0000_0000_0000 {
        half_even(b, 512) * 512
    } else if b < 0x8000_0000_0000_0000 {
        half_even(b, 1024) * 1024
    } else {
        half_even(b, 2048) * 2048
    }
}

/// A size as it is shown.
pub open spec fn size_text(b: int) -> Seq<char> {
    if b == 0 {
        "-"@
    } else if b >= 0x4000_0000 {
        one_decimal(half_even(nearest_double(b) * 10, 0x4000_0000) as nat) + " GB"@
    } else if b >= 0x10_0000 {
        one_decimal(half_even(b * 10, 0x10_0000) as nat) + " MB"@
    } else {
        dec(half_even(b, 1024) as nat) + " KB"@
    }
}

fn double_scale_of(whole: u64) -> (r: u128)
    ensures
        r == double_scale(whole as int),
        0x8000_0000_0000 <= r <= 0x10_0000_0000_0000,
{
    if whole < 2 {
        0x10_0000_0000_0000
    } else if whole < 4 {
        0x8_0000_0000_0000
    } else if whole < 8 {
        0x4_0000_0000_0000
    } else if whole < 16 {
        0x2_0000_0000_0000
    } else if whole < 32 {
        0x1_0000_0000_0000
    } else {
        0x8000_0000_0000
    }
}

fn rounded_to(b: u64, unit: u128) -> (r: u128)
    requires
        0 < unit <= 2048,
    ensures
        r == half_even(b as int, unit as int) * unit,
        r <= 0x1_0000_0000_0000_1000,
{
    let q: u128 = round_half_even(b as u128, unit);
    assert(q * unit <= b + unit) by (nonlinear_arith)
        requires
            q == half_even(b as int, unit as int),
            unit > 0,
            b >= 0,
    {
        let n = b as int;
        let d = unit as int;
        assert(n == d * (n / d) + n % d);
        assert((n / d + 1) * d == d * (n / d) + d);
        assert((n / d) * d == d * (n / d));
    }
    q * unit
}

fn nearest_double_to(b: u64) -> (r: u128)
    ensures
        r == nearest_double(b as int),
        r <= 0x1_0000_0000_0000_1000,
{
    if b < 0x20_0000_0000_0000 {
        b as u128
    } else if b < 0x40_0000_0000_0000 {
        rounded_to(b, 2)
    } else if b < 0x80_0000_0000_0000 {
        rounded_to(b, 4)
    } else if b < 0x100_0000_0000_0000 {
        rounded_to(b, 8)
    } else if b < 0x200_0000_0000_0000 {
        rounded_to(b, 16)
    } else if b < 0x400_0000_0000_0000 {
        rounded_to(b, 32)
    } else if b < 0x800_0000_0000_0000 {
        rounded_to(b, 64)
    } else if b < 0x1000_0000_0000_0000 {
        rounded_to(b, 128)
    } else if b < 0x2000_0000_0000_0000 {
        rounded_to(b, 256)
    } else if b < 0x4000_0000_0000_0000 {
        rounded_to(b, 512)
    } else if b < 0x8000_0000_0000_0000 {
        rounded_to(b, 1024)
    } else {
        rounded_to(b, 2048)
    }
}

impl DockerBuildRecord {
    /// How long the build took, such as `1m04s`, `12.3s` or `840ms`.
    pub fn duration_human(&self) -> (r: String)
        ensures
            r@ == duration_text(self.duration_ms as int),
    {
        let ms: u64 = self.duration_ms;
        if ms < 1000 {
            cat(decimal(ms).as_str(), "ms")
        } else if ms < 60000 {
            let scale: u128 = double_scale_of(ms / 1000);
            assert(ms * scale <= 60000 * 0x10_0000_0000_0000) by (nonlinear_arith)
                requires
                    ms < 60000,
                    scale <= 0x10_0000_0000_0000,
            ;
            let m: u128 = round_half_even(ms as u128 * scale, 1000);
            let tenths: u128 = round_half_even(m * 10, scale);
            assert(m <= ms * scale / 1000 + 1);
            assert(tenths <= 1000) by (nonlinear_arith)
                requires
                    m <= ms * scale / 1000 + 1,
                    ms < 60000,
                    scale >= 0x8000_0000_0000,
                    tenths <= (m * 10) / (scale as int) + 1,
            {
                assert(ms * scale <= 60000 * scale);
                assert(ms * scale / 1000 <= 60 * scale);
                assert(m * 10 <= 600 * scale + 10);
                assert((m * 10) / (scale as int) <= 601);
            }
            cat(with_one_decimal(tenths as u64).as_str(), "s")
        } else {
            let secs: u64 = ms / 1000;
            let rest = decimal(secs % 60);
            let mut r = cat(decimal(secs / 60).as_str(), "m");
            if secs % 60 < 10 {
                r.append("0");
            }
            r.append(rest.as_str());
            r.append("s");
            assert(r@ =~= duration_text(ms as int));
            r
        }
    }

    /// The size of the build context, such as `2.0 GB`, `230.4 MB` or `512 KB`.
    pub fn context_human(&self) -> (r: String)
        ensures
            r@ == size_text(self.context_bytes as int),
    {
        let b: u64 = self.context_bytes;
        if b == 0 {
            owned("-")
        } else if b >= 0x4000_0000 {
            let d: u128 = nearest_double_to(b);
            let tenths: u128 = round_half_even(d * 10, 0x4000_0000);
            cat(with_one_decimal(tenths as u64).as_str(), " GB")
        } else if b >= 0x10_0000 {
            let tenths: u128 = round_half_even(b as u128 * 10, 0x10_0000);
            cat(with_one_decimal(tenths as u64).as_str(), " MB")
        } else {
            let kb: u128 = round_half_even(b as u128, 1024);
            cat(decimal(kb as u64).as_str(), " KB")
        }
    }
}

/// The name of the directory that holds a file; `app` where it has none.
pub open spec fn project_of(config_path: Seq<char>) -> Seq<char> {
    let c = components(config_path);
    if c.len() >= 2 && c[c.len() - 2] != "/"@ && c[c.len() - 2] != "."@ && c[c.len() - 2] != ".."@ {
        c[c.len() - 2]
    } else {
        "app"@
    }
}

/// The project of a config file: the name of the directory that holds it. Links in
/// the path have to be resolved before.
pub fn project_for(config_path: &str) -> (r: String)
    ensures
        r@ == project_of(config_path@),
{
    let c = components_of(config_path);
    if c.len() >= 2 {
        let d = c[c.len() - 2].as_str();
        assert(texts(c@)[c@.len() - 2] == d@);
        if !same(d, "/") && !same(d, ".") && !same(d, "..") {
            return owned(d);
        }
    }
    owned("app")
}

/// The file that holds the history, one record on each line.
pub fn history_path() -> (r: String)
    ensures
        is_state_file(r@, "docker-builds.jsonl"@),
{
    state_file("docker-builds.jsonl")
}

/// The last `limit` records of a history, the newest first.
pub fn newest_first(records: Vec<DockerBuildRecord>, limit: usize) -> (r: Vec<DockerBuildRecord>)
    ensures
        r@.len() == if records@.len() < limit {
            records@.len()
        } else {
            limit as nat
        },
        forall|i: int| 0 <= i < r@.len() ==> #[trigger] r@[i] == records@[records@.len() - 1 - i],
{
    let mut rest = records;
    let mut r: Vec<DockerBuildRecord> = Vec::new();
    while rest.len() > 0 && r.len() < limit
        invariant
            r@.len() <= limit,
            rest@.len() + r@.len() == records@.len(),
            rest@ == records@.take(rest@.len() as int),
            forall|i: int|
                0 <= i < r@.len() ==> #[trigger] r@[i] == records@[records@.len() - 1 - i],
        decreases rest@.len(),
    {
        let ghost before = rest@;
        if let Some(x) = rest.pop() {
            r.push(x);
        }
        assert(rest@ =~= records@.take(rest@.len() as int));
    }
    r
}

} // verus!
