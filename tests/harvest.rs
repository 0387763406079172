use glc::filter::FetchFilter;
use glc::harvest::PageOutcome;
use glc::model::{Job, Pipeline};
use glc::query::{HarvestError, JobQuery, Request, JOB_PERMITS};

const NOW: i64 = 1_700_000_000;

fn pipeline() -> Pipeline {
    Pipeline {
        id: 7,
        project_id: 1,
        rref: "main".to_string(),
        status: "success".to_string(),
        sha: "0123456789abcdef".to_string(),
        source: "push".to_string(),
        created_at: None,
        started_at: None,
        updated_at: None,
        finished_at: None,
        web_url: "https://ci.example/p/7".to_string(),
    }
}

fn job(id: usize, name: &str, age: i64) -> Job {
    Job {
        id,
        status: "success".to_string(),
        stage: "test".to_string(),
        name: name.to_string(),
        rref: "main".to_string(),
        tag: false,
        created_at: NOW - age,
        started_at: NOW - age,
        finished_at: NOW - age + 10,
        duration: Some(10),
        queued_duration: None,
        failure_reason: None,
        artifacts: None,
        artifacts_size: 0,
        pipeline: pipeline(),
        tag_list: None,
        runner: None,
    }
}

/// What the simulated service answers for one page.
#[derive(Clone)]
enum Page {
    Jobs(Vec<(usize, &'static str, i64)>),
    Broken,
}

fn answer(feed: &[Page], page: usize) -> PageOutcome {
    match &feed[page - 1] {
        Page::Jobs(list) => PageOutcome::Fetched {
            jobs: list.iter().map(|(id, n, a)| job(*id, n, *a)).collect(),
            total_pages: if page == 1 {
                Some(feed.len().to_string().into_bytes())
            } else {
                None
            },
        },
        Page::Broken => PageOutcome::Failed {
            detail: format!("page {} unreadable", page),
        },
    }
}

struct Run {
    result: Result<Vec<Job>, HarvestError>,
    calls: Vec<Request>,
    most_in_flight: usize,
}

/// Drives a query against simulated feeds, answering the oldest request
/// first.
fn drive(mut q: JobQuery, feeds: &[Vec<Page>]) -> Run {
    let mut calls = Vec::new();
    let mut in_flight: Vec<Request> = Vec::new();
    let mut most = 0;
    loop {
        while let Some(r) = q.next_request() {
            calls.push(r);
            in_flight.push(r);
            most = most.max(in_flight.len());
        }
        if in_flight.is_empty() || q.has_failed() {
            break;
        }
        let r = in_flight.remove(0);
        q.deliver(r.parent, answer(&feeds[r.parent], r.page));
    }
    Run { result: q.into_result(), calls, most_in_flight: most }
}

fn ids(jobs: &[Job]) -> Vec<usize> {
    let mut v: Vec<usize> = jobs.iter().map(|j| j.id).collect();
    v.sort();
    v
}

fn query(parents: usize, filter: FetchFilter, capacity: usize) -> JobQuery {
    let urls = (0..parents).map(|i| format!("https://ci.example/feed/{}?per_page=20", i)).collect();
    JobQuery::new(filter, NOW, urls, capacity)
}

fn any() -> FetchFilter {
    FetchFilter { names: None, status: None, max_age: None }
}

fn aged(max_age: u64) -> FetchFilter {
    FetchFilter { names: None, status: None, max_age: Some(max_age) }
}

#[test]
fn unbounded_age_returns_every_record() {
    let feed = vec![
        Page::Jobs(vec![(1, "a", 10), (2, "b", 1_000_000)]),
        Page::Jobs(vec![(3, "c", 50_000_000)]),
        Page::Jobs(vec![(4, "d", 900_000_000), (5, "e", 5)]),
    ];
    let run = drive(query(1, any(), JOB_PERMITS), &[feed]);
    assert_eq!(ids(&run.result.unwrap()), vec![1, 2, 3, 4, 5]);
    assert_eq!(run.calls.len(), 3);
}

#[test]
fn unbounded_age_keeps_cutoff_at_page_count() {
    let feed = vec![
        Page::Jobs(vec![(1, "a", 10)]),
        Page::Jobs(vec![(2, "b", 999_999_999)]),
    ];
    let mut q = query(1, any(), 5);
    let r = q.next_request().unwrap();
    q.deliver(r.parent, answer(&feed, r.page));
    assert_eq!(q.feeds[0].cutoff, 2);
    let r = q.next_request().unwrap();
    assert_eq!(r, Request { parent: 0, page: 2 });
    q.deliver(r.parent, answer(&feed, r.page));
    assert_eq!(q.feeds[0].cutoff, 2);
    assert!(q.is_finished());
}

#[test]
fn stale_first_page_makes_no_further_calls() {
    let feed = vec![
        Page::Jobs(vec![(1, "a", 5)]),
        Page::Jobs(vec![(2, "a", 0)]),
        Page::Jobs(vec![(3, "a", 0)]),
        Page::Jobs(vec![(4, "a", 0)]),
    ];
    let run = drive(query(1, aged(0), JOB_PERMITS), &[feed]);
    assert_eq!(run.calls, vec![Request { parent: 0, page: 1 }]);
    assert_eq!(ids(&run.result.unwrap()), Vec::<usize>::new());
}

#[test]
fn failed_later_page_counts_as_empty() {
    let feed = vec![
        Page::Jobs(vec![(1, "a", 1)]),
        Page::Jobs(vec![(2, "a", 1)]),
        Page::Broken,
        Page::Jobs(vec![(4, "a", 1)]),
        Page::Jobs(vec![(5, "a", 1), (6, "b", 2)]),
    ];
    let run = drive(query(1, aged(3600), JOB_PERMITS), &[feed]);
    assert_eq!(ids(&run.result.unwrap()), vec![1, 2, 4, 5, 6]);
    assert_eq!(run.calls.len(), 5);
}

#[test]
fn first_page_failure_fails_whole_query() {
    let broken = vec![Page::Broken, Page::Jobs(vec![(9, "x", 1)])];
    let fine = vec![Page::Jobs(vec![(1, "a", 1)]), Page::Jobs(vec![(2, "a", 1)])];
    let run = drive(query(2, any(), JOB_PERMITS), &[broken, fine]);
    let err = run.result.unwrap_err();
    assert_eq!(err.parent, 0);
    assert_eq!(err.detail, "page 1 unreadable");
}

#[test]
fn first_page_failure_of_later_parent_fails_query() {
    let fine = vec![Page::Jobs(vec![(1, "a", 1)])];
    let broken = vec![Page::Broken];
    let run = drive(query(2, any(), JOB_PERMITS), &[fine, broken]);
    assert_eq!(run.result.unwrap_err().parent, 1);
}

#[test]
fn name_filter_keeps_only_fresh_matches() {
    let feed = vec![Page::Jobs(vec![
        (1, "build", 10),
        (2, "test", 10),
        (3, "deploy", 10),
        (4, "test", 90_000),
    ])];
    let filter = FetchFilter {
        names: Some(vec!["test".to_string()]),
        status: None,
        max_age: Some(3600),
    };
    let run = drive(query(1, filter, JOB_PERMITS), &[feed]);
    let jobs = run.result.unwrap();
    assert_eq!(ids(&jobs), vec![2]);
    assert!(jobs.iter().all(|j| j.name == "test"));
}

#[test]
fn status_filter_keeps_only_that_status() {
    let mut q = query(1, FetchFilter { names: None, status: Some("failed".to_string()), max_age: None }, 3);
    let r = q.next_request().unwrap();
    let mut failed = job(1, "a", 1);
    failed.status = "failed".to_string();
    q.deliver(
        r.parent,
        PageOutcome::Fetched { jobs: vec![failed, job(2, "a", 1)], total_pages: None },
    );
    assert_eq!(ids(&q.into_result().unwrap()), vec![1]);
}

#[test]
fn in_flight_requests_never_exceed_gate() {
    let feeds: Vec<Vec<Page>> = (0..40)
        .map(|i| vec![Page::Jobs(vec![(i, "a", 1)]), Page::Jobs(vec![(100 + i, "a", 1)])])
        .collect();
    let run = drive(query(40, any(), JOB_PERMITS), &feeds);
    assert_eq!(run.most_in_flight, JOB_PERMITS);
    assert_eq!(run.calls.len(), 80);
    assert_eq!(run.result.unwrap().len(), 80);
}

#[test]
fn small_gate_serialises_requests() {
    let feeds: Vec<Vec<Page>> = (0..4).map(|i| vec![Page::Jobs(vec![(i, "a", 1)])]).collect();
    let run = drive(query(4, any(), 1), &feeds);
    assert_eq!(run.most_in_flight, 1);
    assert_eq!(run.result.unwrap().len(), 4);
}

#[test]
fn three_parents_stop_after_stale_page() {
    let hour = 3600;
    let r1 = vec![Page::Jobs(vec![(1, "a", 60)]), Page::Jobs(vec![(2, "a", 120)])];
    let r2 = vec![Page::Jobs(vec![(3, "a", 60)])];
    let r3 = vec![
        Page::Jobs(vec![(4, "a", 60)]),
        Page::Jobs(vec![(5, "a", 600)]),
        Page::Jobs(vec![(6, "a", 2 * hour), (7, "a", 3 * hour)]),
        Page::Jobs(vec![(8, "a", 4 * hour)]),
    ];
    let run = drive(query(3, aged(hour as u64), JOB_PERMITS), &[r1, r2, r3]);
    assert_eq!(run.calls.len(), 6);
    assert!(!run.calls.contains(&Request { parent: 2, page: 4 }));
    assert_eq!(ids(&run.result.unwrap()), vec![1, 2, 3, 4, 5]);
}

#[test]
fn stale_record_lowers_cutoff_to_its_page() {
    let feed = vec![
        Page::Jobs(vec![(1, "a", 1)]),
        Page::Jobs(vec![(2, "a", 1), (3, "a", 100)]),
        Page::Jobs(vec![(4, "a", 1)]),
    ];
    let mut q = query(1, aged(50), 2);
    for _ in 0..2 {
        let r = q.next_request().unwrap();
        q.deliver(r.parent, answer(&feed, r.page));
    }
    assert_eq!(q.feeds[0].cutoff, 2);
    assert_eq!(q.next_request(), None);
    assert!(q.is_finished());
    assert_eq!(ids(&q.into_result().unwrap()), vec![1, 2]);
}

#[test]
fn missing_page_count_means_one_page() {
    let mut q = query(1, any(), 2);
    let r = q.next_request().unwrap();
    q.deliver(r.parent, PageOutcome::Fetched { jobs: vec![job(1, "a", 1)], total_pages: None });
    assert_eq!(q.feeds[0].total_pages, 1);
    assert_eq!(q.next_request(), None);
    assert!(q.is_finished());
}

#[test]
fn no_parents_finish_at_once() {
    let q = query(0, any(), 2);
    assert!(q.is_finished());
    assert_eq!(q.into_result().unwrap().len(), 0);
}
