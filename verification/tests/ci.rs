use starling::api::v1alpha1::{DisableResourceStatus, ObjectMeta, UIResource, UIResourceStatus};
use starling::build_history::{history_path, newest_first, project_for, DockerBuildRecord};
use starling::ci::{
    ci_outcome, ci_step, ci_timeout_secs, parse_duration_secs, CiOutcome, CiStep,
};

fn rec(ms: u64, ok: bool, bytes: u64) -> DockerBuildRecord {
    DockerBuildRecord {
        image_ref: "img:dev".to_string(),
        resource: "grpc".to_string(),
        project: "app".to_string(),
        started_at: "2026-01-01T00:00:00Z".to_string(),
        duration_ms: ms,
        success: ok,
        context_bytes: bytes,
    }
}

#[test]
fn formats_duration_and_context() {
    assert_eq!(rec(840, true, 0).duration_human(), "840ms");
    assert_eq!(rec(12_340, true, 0).duration_human(), "12.3s");
    assert_eq!(rec(64_000, true, 0).duration_human(), "1m04s");
    assert_eq!(rec(0, true, 0).context_human(), "-");
    assert_eq!(rec(0, true, 230 * 1024 * 1024).context_human(), "230.0 MB");
    assert_eq!(
        rec(0, true, 2 * 1024 * 1024 * 1024).context_human(),
        "2.0 GB"
    );
}

#[test]
fn durations_are_rounded_as_doubles_are() {
    for ms in 1000..60_000u64 {
        let expected = format!("{:.1}s", ms as f64 / 1000.0);
        assert_eq!(rec(ms, true, 0).duration_human(), expected);
    }
    assert_eq!(rec(59_999, true, 0).duration_human(), "60.0s");
    assert_eq!(rec(3_600_000, true, 0).duration_human(), "60m00s");
}

#[test]
fn sizes_are_rounded_as_doubles_are() {
    let expected = |bytes: u64| {
        let b = bytes as f64;
        if bytes == 0 {
            "-".to_string()
        } else if b >= 1024.0 * 1024.0 * 1024.0 {
            format!("{:.1} GB", b / (1024.0 * 1024.0 * 1024.0))
        } else if b >= 1024.0 * 1024.0 {
            format!("{:.1} MB", b / (1024.0 * 1024.0))
        } else {
            format!("{:.0} KB", b / 1024.0)
        }
    };
    let mut n: u64 = 1;
    for _ in 0..4000 {
        assert_eq!(rec(0, true, n).context_human(), expected(n));
        n = n.wrapping_mul(6364136223846793005).wrapping_add(1442695040888963407);
        let shift = n >> 58;
        assert_eq!(rec(0, true, n >> shift).context_human(), expected(n >> shift));
    }
    for bytes in [
        511, 512, 513, 1535, 1536, 1537, 1048575, 1048576, 1073741823, 1073741824,
        (1 << 53) + 1, (1 << 54) + 2, u64::MAX, u64::MAX - 1024,
    ] {
        assert_eq!(rec(0, true, bytes).context_human(), expected(bytes));
    }
}

#[test]
fn history_is_read_newest_first() {
    let records = vec![rec(1, true, 0), rec(2, true, 0), rec(3, false, 0)];
    let newest = newest_first(records, 2);
    assert_eq!(newest.iter().map(|r| r.duration_ms).collect::<Vec<_>>(), vec![3, 2]);
    assert_eq!(newest_first(vec![rec(1, true, 0)], 5).len(), 1);
    assert!(newest_first(vec![rec(1, true, 0)], 0).is_empty());
    assert!(history_path().ends_with(".starling/docker-builds.jsonl"));
}

#[test]
fn a_project_is_named_after_its_directory() {
    assert_eq!(project_for("/home/me/shop/Tiltfile"), "shop");
    assert_eq!(project_for("Tiltfile"), "app");
    assert_eq!(project_for("/Tiltfile"), "app");
    assert_eq!(project_for("../Tiltfile"), "app");
}

fn res(update: &str, runtime: &str) -> UIResource {
    UIResource {
        metadata: None,
        spec: None,
        status: Some(UIResourceStatus {
            update_status: Some(update.to_string()),
            runtime_status: Some(runtime.to_string()),
            ..Default::default()
        }),
    }
}

fn disabled(update: &str, runtime: &str) -> UIResource {
    let mut r = res(update, runtime);
    r.status.as_mut().unwrap().disable_status = Some(DisableResourceStatus {
        enabled_count: 0,
        disabled_count: 1,
        state: "Disabled".to_string(),
        sources: vec![],
    });
    r
}

#[test]
fn pending_until_all_settle() {
    let rs = vec![res("ok", "ok"), res("in_progress", "pending")];
    assert_eq!(ci_outcome(&rs), CiOutcome::Pending);
    assert_eq!(ci_outcome(&[res("none", "none")]), CiOutcome::Pending);
}

#[test]
fn done_when_all_enabled_resources_settled() {
    let rs = vec![
        res("ok", "ok"),
        res("not_applicable", "none"),
        res("ok", "not_applicable"),
    ];
    assert_eq!(ci_outcome(&rs), CiOutcome::Done);
}

#[test]
fn failed_on_any_error() {
    assert_eq!(
        ci_outcome(&[res("ok", "ok"), res("error", "none")]),
        CiOutcome::Failed
    );
    assert_eq!(ci_outcome(&[res("ok", "error")]), CiOutcome::Failed);
}

#[test]
fn disabled_resources_are_ignored() {
    let rs = vec![res("ok", "ok"), disabled("none", "none")];
    assert_eq!(ci_outcome(&rs), CiOutcome::Done);
    let rs = vec![res("ok", "ok"), disabled("error", "error")];
    assert_eq!(ci_outcome(&rs), CiOutcome::Done);
}

#[test]
fn empty_is_done() {
    assert_eq!(ci_outcome(&[]), CiOutcome::Done);
}

#[test]
fn parses_durations() {
    assert_eq!(parse_duration_secs("30m"), Some(1800));
    assert_eq!(parse_duration_secs("90s"), Some(90));
    assert_eq!(parse_duration_secs("1h30m"), Some(5400));
    assert_eq!(parse_duration_secs("300"), Some(300));
    assert_eq!(parse_duration_secs("2h"), Some(7200));
    assert_eq!(parse_duration_secs(""), None);
    assert_eq!(parse_duration_secs("bad"), None);
    assert_eq!(parse_duration_secs("10x"), None);
    assert_eq!(parse_duration_secs("5m30"), None);
}

#[test]
fn durations_that_do_not_fit_are_told_apart() {
    assert_eq!(parse_duration_secs("18446744073709551615"), Some(u64::MAX));
    assert_eq!(parse_duration_secs("18446744073709551616"), None);
    assert_eq!(parse_duration_secs("18446744073709551615s"), Some(u64::MAX));
    assert_eq!(parse_duration_secs("18446744073709551615s1s"), None);
    assert_eq!(parse_duration_secs("18446744073709551615h"), None);
    assert_eq!(parse_duration_secs("18446744073709551616s"), None);
    assert_eq!(parse_duration_secs("  +7 "), Some(7));
    assert_eq!(parse_duration_secs("m"), None);
}

#[test]
fn a_run_ends_when_it_is_up_failed_or_late() {
    assert_eq!(ci_timeout_secs(Some(1), Some(2)), 1);
    assert_eq!(ci_timeout_secs(None, Some(2)), 2);
    assert_eq!(ci_timeout_secs(None, None), 300);

    let up = vec![res("ok", "ok")];
    assert_eq!(
        ci_step(1, &up, 250, 300),
        CiStep::Up("starling ci: all 1 resource(s) are up.".to_string())
    );
    assert_eq!(ci_step(2, &up, 250, 300), CiStep::Wait);
    assert_eq!(
        ci_step(2, &up, 300_000, 300),
        CiStep::Fail(vec![
            "starling ci: timed out after 300s before all resources settled".to_string()
        ])
    );
    assert_eq!(ci_step(2, &up, 300_000, u64::MAX), CiStep::Wait);
    let mut failed = res("error", "none");
    failed.metadata = Some(ObjectMeta {
        name: "web".to_string(),
        ..Default::default()
    });
    assert_eq!(
        ci_step(1, &vec![failed, res("ok", "ok")], 250, 300),
        CiStep::Fail(vec![
            "starling ci: one or more resources failed:".to_string(),
            "  web: update=error runtime=none".to_string()
        ])
    );
}
