use glc::args::ShowJobArgs;
use glc::filter::FetchFilter;
use glc::gate::Gate;
use glc::model::{artifacts_size, Artifact, Credentials, Job, Pipeline};
use glc::pipelines::{sift_pipeline_page, sift_pipelines, PipelineSearch};

const NOW: i64 = 1_000_000;

fn pipeline(id: u32, created: Option<&str>, source: &str, rref: &str) -> Pipeline {
    Pipeline {
        id,
        project_id: 1,
        rref: rref.to_string(),
        status: "success".to_string(),
        sha: "0123456789abcdef".to_string(),
        source: source.to_string(),
        created_at: created.map(|s| s.to_string()),
        started_at: None,
        updated_at: None,
        finished_at: None,
        web_url: String::new(),
    }
}

fn job(name: &str, status: &str, created_at: i64) -> Job {
    Job {
        id: 1,
        status: status.to_string(),
        stage: "build".to_string(),
        name: name.to_string(),
        rref: "main".to_string(),
        tag: false,
        created_at,
        started_at: created_at,
        finished_at: created_at,
        duration: None,
        queued_duration: None,
        failure_reason: None,
        artifacts: None,
        artifacts_size: 0,
        pipeline: pipeline(1, None, "push", "main"),
        tag_list: None,
        runner: None,
    }
}

fn artifact(size: usize) -> Artifact {
    Artifact { file_type: "archive".to_string(), size, filename: "a.zip".to_string(), file_format: None }
}

fn args(job: Option<usize>, pipeline: Option<usize>, status: bool) -> ShowJobArgs {
    ShowJobArgs { job, pipeline, status, _follow: None, tail: None, prefix: false, plain: false }
}

#[test]
fn validate_needs_job_or_pipeline() {
    let mut a = args(None, None, true);
    assert_eq!(a.validate(), Err("Must specify either job or pipeline.".to_string()));
}

#[test]
fn validate_turns_status_off_for_pipeline() {
    let mut a = args(None, Some(4), true);
    assert_eq!(a.validate(), Ok(()));
    assert!(!a.status);
    let mut b = args(Some(3), None, true);
    assert_eq!(b.validate(), Ok(()));
    assert!(b.status);
}

#[test]
fn artifact_sizes_add_up() {
    assert_eq!(artifacts_size(&None), 0);
    assert_eq!(artifacts_size(&Some(vec![])), 0);
    assert_eq!(artifacts_size(&Some(vec![artifact(10), artifact(32)])), 42);
    assert_eq!(artifacts_size(&Some(vec![artifact(usize::MAX), artifact(1)])), usize::MAX);
}

#[test]
fn filter_checks_name_status_and_age() {
    let f = FetchFilter {
        names: Some(vec!["build".to_string(), "test".to_string()]),
        status: Some("failed".to_string()),
        max_age: Some(100),
    };
    assert!(f.keeps(&job("test", "failed", NOW - 100), NOW));
    assert!(!f.keeps(&job("test", "failed", NOW - 101), NOW));
    assert!(!f.keeps(&job("deploy", "failed", NOW), NOW));
    assert!(!f.keeps(&job("build", "success", NOW), NOW));
    assert!(f.stale(&job("deploy", "success", NOW - 101), NOW));
    assert!(!f.stale(&job("deploy", "success", NOW + 50), NOW));
}

#[test]
fn sift_splits_a_page() {
    let f = FetchFilter { names: Some(vec!["test".to_string()]), status: None, max_age: Some(60) };
    let page = vec![job("build", "success", NOW), job("test", "success", NOW - 10), job("test", "success", NOW - 61)];
    let (kept, stale) = f.sift(page, NOW);
    assert_eq!(kept.len(), 1);
    assert_eq!(kept[0].name, "test");
    assert!(stale);
    let (kept, stale) = f.sift(vec![], NOW);
    assert!(kept.is_empty());
    assert!(!stale);
}

#[test]
fn gate_counts_permits() {
    let mut g = Gate::new(2);
    assert!(g.try_acquire());
    assert!(g.try_acquire());
    assert!(!g.try_acquire());
    g.release();
    assert_eq!(g.in_use, 1);
    assert!(g.try_acquire());
    let mut none = Gate::new(0);
    assert!(!none.try_acquire());
}

#[test]
fn pipelines_sorted_by_age_source_and_ref() {
    let page = vec![
        pipeline(1, Some("x"), "push", "main"),
        pipeline(2, Some("x"), "schedule", "main"),
        pipeline(3, Some("x"), "push", "dev"),
        pipeline(4, None, "push", "main"),
        pipeline(5, Some("x"), "push", "main"),
    ];
    let created = vec![Some(NOW - 5), Some(NOW - 5), Some(NOW - 5), None, Some(NOW - 500)];
    let (kept, past) = sift_pipelines(page, &created, 100, &Some("push".to_string()), &Some("main".to_string()), NOW);
    assert_eq!(kept.iter().map(|p| p.id).collect::<Vec<_>>(), vec![1]);
    assert!(past);
}

#[test]
fn pipeline_page_reads_timestamps() {
    let page = vec![
        pipeline(1, Some("1970-01-12T13:46:30Z"), "push", "main"),
        pipeline(2, Some("1970-01-01T00:00:00Z"), "push", "main"),
        pipeline(3, Some("not a time"), "push", "main"),
    ];
    let (kept, past) = sift_pipeline_page(page, 3600, &None, &None, NOW);
    assert_eq!(kept.iter().map(|p| p.id).collect::<Vec<_>>(), vec![1]);
    assert!(past);
}

#[test]
fn pipeline_search_follows_next_and_stops() {
    let creds = Credentials { token: "SECRET-REDACTED".to_string(), url: "https://ci.example".to_string() };
    let mut s = PipelineSearch::new(&creds, "197", 3600, None, None, NOW);
    assert_eq!(s.next.as_deref(), Some("https://ci.example/api/v4/projects/197/pipelines?per_page=100"));
    s.take_page(
        "<https://ci.example/p?page=2>; rel=\"next\"",
        vec![pipeline(9, Some("1970-01-12T13:46:30Z"), "push", "main")],
    );
    assert_eq!(s.next.as_deref(), Some("https://ci.example/p?page=2"));
    s.take_page(
        "<https://ci.example/p?page=3>; rel=\"next\"",
        vec![
            pipeline(8, Some("1970-01-12T13:40:00Z"), "push", "main"),
            pipeline(7, Some("1970-01-01T00:00:00Z"), "push", "main"),
        ],
    );
    assert_eq!(s.next, None);
    let found = s.into_pipelines();
    assert_eq!(found.iter().map(|p| p.id).collect::<Vec<_>>(), vec![8, 9]);
}
