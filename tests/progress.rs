use gh_ci_watch::github::{JobStep, RunJob};
use gh_ci_watch::progress::{calculate_progress, ProgressResult};

fn step(name: &str, status: &str) -> JobStep {
    JobStep {
        name: name.to_string(),
        status: status.to_string(),
        conclusion: None,
        started_at: None,
        completed_at: None,
    }
}

fn job(id: u64, status: &str, step_statuses: &[&str]) -> RunJob {
    RunJob {
        id,
        name: format!("job-{id}"),
        status: status.to_string(),
        conclusion: None,
        started_at: "2024-01-01T00:00:00Z".to_string(),
        completed_at: None,
        steps: step_statuses
            .iter()
            .enumerate()
            .map(|(i, s)| step(&format!("step-{i}"), s))
            .collect(),
    }
}

fn ratio(p: &ProgressResult) -> f32 {
    if p.total == 0 {
        0.0
    } else {
        p.complete as f32 / p.total as f32
    }
}

#[test]
fn five_jobs_two_completed() {
    let partial = ["completed", "completed", "completed", "in_progress"];
    let jobs = vec![
        job(1, "completed", &["completed"; 4]),
        job(2, "completed", &["completed"; 4]),
        job(3, "in_progress", &partial),
        job(4, "in_progress", &partial),
        job(5, "queued", &partial),
    ];
    let p = calculate_progress(&jobs);
    assert_eq!(p, ProgressResult { complete: 17, total: 20 });
    assert!((ratio(&p) - 0.85).abs() < 1e-6);
}

#[test]
fn in_progress_payload_ratio() {
    // A run in progress: one finished job, one with three of eight steps done.
    let jobs = vec![
        job(10, "completed", &["completed"; 8]),
        job(
            11,
            "in_progress",
            &[
                "completed",
                "completed",
                "completed",
                "in_progress",
                "queued",
                "queued",
                "queued",
                "queued",
            ],
        ),
    ];
    let p = calculate_progress(&jobs);
    assert_eq!(p, ProgressResult { complete: 11, total: 16 });
    assert!((ratio(&p) - 0.6875).abs() < 0.001);
}

#[test]
fn all_jobs_completed_ratio_is_one() {
    let jobs = vec![
        job(1, "completed", &["completed", "completed"]),
        job(2, "completed", &["completed", "completed", "completed"]),
        job(3, "completed", &["completed"]),
    ];
    let p = calculate_progress(&jobs);
    assert_eq!(p.complete, 6);
    assert_eq!(p.total, 6);
    assert_eq!(ratio(&p), 1.0);
}

#[test]
fn completed_job_counts_stale_steps_as_done() {
    let jobs = vec![job(1, "completed", &["queued", "in_progress", "completed"])];
    let p = calculate_progress(&jobs);
    assert_eq!(p, ProgressResult { complete: 3, total: 3 });
}

#[test]
fn nothing_completed_ratio_is_zero() {
    let jobs = vec![
        job(1, "queued", &["queued", "queued"]),
        job(2, "in_progress", &["in_progress", "queued", "queued"]),
    ];
    let p = calculate_progress(&jobs);
    assert_eq!(p, ProgressResult { complete: 0, total: 5 });
    assert_eq!(ratio(&p), 0.0);
}

#[test]
fn no_jobs_no_steps() {
    let p = calculate_progress(&[]);
    assert_eq!(p, ProgressResult { complete: 0, total: 0 });
    assert_eq!(ratio(&p), 0.0);
    let jobs = vec![job(1, "in_progress", &[])];
    assert_eq!(calculate_progress(&jobs), ProgressResult { complete: 0, total: 0 });
}

#[test]
fn ratio_is_over_steps_not_jobs() {
    // One job with 1 of 1 step, one with 0 of 3: 1/4 of the steps, not the
    // average of 1 and 0.
    let jobs = vec![
        job(1, "in_progress", &["completed"]),
        job(2, "in_progress", &["queued", "queued", "queued"]),
    ];
    let p = calculate_progress(&jobs);
    assert_eq!(p, ProgressResult { complete: 1, total: 4 });
    assert_eq!(ratio(&p), 0.25);
}
