//! How durations and sizes are shown, whatever they are.

use vstd::prelude::*;
use vstd::string::*;

use crate::build_history::{
    double_scale, duration_text, half_even, nearest_double, one_decimal, project_of, second_tenths,
    size_text,
};
use crate::path_laws::{are_names, is_name, path_of_names, rooted};
use crate::text::dec;

verus! {

/// Rounding is off by half at most, and of two that are as near the even one is taken.
pub proof fn rounded_to_nearest(n: int, d: int)
    requires
        0 <= n,
        0 < d,
    ensures
        2 * n - d <= 2 * d * half_even(n, d) <= 2 * n + d,
        2 * d * half_even(n, d) == 2 * n + d || 2 * d * half_even(n, d) == 2 * n - d ==> half_even(
            n,
            d,
        ) % 2 == 0,
        0 <= half_even(n, d),
{
    let q = n / d;
    let r = n % d;
    assert(n == d * q + r && 0 <= r < d && 0 <= q) by (nonlinear_arith)
        requires
            q == n / d,
            r == n % d,
            0 <= n,
            0 < d,
    ;
    assert(2 * d * q == 2 * (d * q)) by (nonlinear_arith);
    assert(2 * d * (q + 1) == 2 * (d * q) + 2 * d) by (nonlinear_arith);
}

/// Tenths of seconds are those nearest to the milliseconds.
proof fn tenths_near(ms: int)
    requires
        1000 <= ms < 60000,
    ensures
        -50 <= 100 * second_tenths(ms) - ms <= 50,
        0 <= second_tenths(ms),
{
    let scale = double_scale(ms / 1000);
    let inner = half_even(ms * scale, 1000);
    let t = half_even(inner * 10, scale);
    assert(0x8000_0000_0000 <= scale <= 0x10_0000_0000_0000);
    assert(0 <= ms * scale) by (nonlinear_arith)
        requires
            0 <= ms,
            0 <= scale,
    ;
    rounded_to_nearest(ms * scale, 1000);
    rounded_to_nearest(inner * 10, scale);
    let ts = t * scale;
    assert(2 * scale * t == 2 * ts) by (nonlinear_arith)
        requires
            ts == t * scale,
    ;
    let p = ms * scale;
    // The outer rounding, then the inner one, in units of a thousandth of the scale.
    assert(20 * inner - scale <= 2 * ts <= 20 * inner + scale);
    assert(2 * p - 1000 <= 2000 * inner <= 2 * p + 1000);
    assert(200 * ts <= 2 * p + 1000 + 100 * scale);
    assert(200 * ts >= 2 * p - 1000 - 100 * scale);
    let diff = 100 * t - ms;
    assert(diff * scale == 100 * ts - p) by (nonlinear_arith)
        requires
            diff == 100 * t - ms,
            ts == t * scale,
            p == ms * scale,
    ;
    assert(-50 * scale - 500 <= diff * scale <= 50 * scale + 500);
    assert(diff <= 50) by (nonlinear_arith)
        requires
            diff * scale <= 50 * scale + 500,
            scale >= 0x8000_0000_0000,
    ;
    assert(diff >= -50) by (nonlinear_arith)
        requires
            diff * scale >= -50 * scale - 500,
            scale >= 0x8000_0000_0000,
    ;
}

/// A duration is shown in milliseconds below a second, in tenths of seconds below a minute,
/// the nearest ones, else in whole minutes and seconds, of which there are always two
/// digits.
pub proof fn durations_shown(ms: int, m: nat, s: nat, rest: nat)
    requires
        s < 60,
        rest < 1000,
        m > 0,
    ensures
        0 <= ms < 1000 ==> duration_text(ms) == dec(ms as nat) + "ms"@,
        1000 <= ms < 60000 ==> exists|t: nat|
            duration_text(ms) == #[trigger] dec(t / 10) + "."@ + dec(t % 10) + "s"@ && -50 <= 100
                * t - ms <= 50,
        s >= 10 ==> duration_text(((m * 60 + s) * 1000 + rest) as int) == dec(m) + "m"@ + dec(s) + "s"@,
        s < 10 ==> duration_text(((m * 60 + s) * 1000 + rest) as int) == dec(m) + "m0"@ + dec(s) + "s"@,
{
    if 1000 <= ms < 60000 {
        tenths_near(ms);
        let t = second_tenths(ms) as nat;
        assert(duration_text(ms) == dec(t / 10) + "."@ + dec(t % 10) + "s"@);
    }
    let total = ((m * 60 + s) * 1000 + rest) as int;
    assert(total >= 60000);
    assert(total / 1000 == m * 60 + s);
    assert((m * 60 + s) / 60 == m);
    assert((m * 60 + s) % 60 == s);
    reveal_strlit("m");
    reveal_strlit("0");
    reveal_strlit("m0");
    assert(dec(m) + "m"@ + ("0"@ + dec(s)) + "s"@ =~= dec(m) + "m0"@ + dec(s) + "s"@);
}

/// A size is shown in kilobytes below a megabyte, in tenths of megabytes below a gigabyte,
/// else in tenths of gigabytes, the nearest ones; nothing known is a dash.
pub proof fn sizes_shown(b: int)
    requires
        0 <= b <= u64::MAX,
    ensures
        b == 0 ==> size_text(b) == "-"@,
        0 < b < 0x10_0000 ==> exists|k: nat|
            size_text(b) == #[trigger] dec(k) + " KB"@ && 2 * b - 1024 <= 2048 * k <= 2 * b + 1024,
        0x10_0000 <= b < 0x4000_0000 ==> exists|t: nat|
            size_text(b) == #[trigger] one_decimal(t) + " MB"@ && 20 * b - 0x10_0000 <= 0x20_0000 * t
                <= 20 * b + 0x10_0000,
        0x4000_0000 <= b < 0x20_0000_0000_0000 ==> exists|t: nat|
            size_text(b) == #[trigger] one_decimal(t) + " GB"@ && 20 * b - 0x4000_0000 <= 0x8000_0000
                * t <= 20 * b + 0x4000_0000,
{
    if 0 < b < 0x10_0000 {
        rounded_to_nearest(b, 1024);
        let k = half_even(b, 1024) as nat;
        assert(size_text(b) == dec(k) + " KB"@);
    } else if 0x10_0000 <= b < 0x4000_0000 {
        rounded_to_nearest(b * 10, 0x10_0000);
        let t = half_even(b * 10, 0x10_0000) as nat;
        assert(size_text(b) == one_decimal(t) + " MB"@);
    } else if 0x4000_0000 <= b < 0x20_0000_0000_0000 {
        assert(nearest_double(b) == b);
        rounded_to_nearest(b * 10, 0x4000_0000);
        let t = half_even(b * 10, 0x4000_0000) as nat;
        assert(size_text(b) == one_decimal(t) + " GB"@);
    }
}

/// A tenth is shown behind the point.
pub proof fn tenths_shown(whole: nat, tenth: nat)
    requires
        tenth < 10,
    ensures
        one_decimal(10 * whole + tenth) == dec(whole) + "."@ + dec(tenth),
{
    assert((10 * whole + tenth) / 10 == whole);
    assert((10 * whole + tenth) % 10 == tenth);
}

/// A project is called by the directory that its config lies in.
pub proof fn project_told(v: Seq<Seq<char>>)
    requires
        are_names(v),
        v.len() > 0,
    ensures
        v.len() > 1 && v[v.len() - 2] != ".."@ ==> project_of(rooted(v)) == v[v.len() - 2],
        v.len() == 1 ==> project_of(rooted(v)) == "app"@,
{
    path_of_names(v);
    let c = seq!["/"@] + v;
    reveal_strlit("/");
    if v.len() > 1 {
        assert(c[c.len() - 2] == v[v.len() - 2]);
        assert(is_name(v[v.len() - 2]));
        if v[v.len() - 2] == "/"@ {
            assert(v[v.len() - 2][0] == '/');
        }
    } else {
        assert(c[c.len() - 2] == "/"@);
    }
}

} // verus!
