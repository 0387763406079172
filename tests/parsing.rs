use glc::dates::{compare_dates_with_tolerance, job_timestamp, seconds_ago};
use glc::format::format_seconds;
use glc::header::total_pages_from_header;
use glc::links::parse_next_page;
use glc::model::Credentials;
use glc::urls::{page_url, pipeline_jobs, project_pipelines, push_decimal, runner_jobs};
use std::cmp::Ordering;

#[test]
fn page_count_header_is_read() {
    assert_eq!(total_pages_from_header(Some(b"5")), 5);
    assert_eq!(total_pages_from_header(Some(b"+7")), 7);
    assert_eq!(total_pages_from_header(Some(b"0")), 0);
    assert_eq!(total_pages_from_header(Some(b"120")), 120);
}

#[test]
fn page_count_defaults_to_one() {
    assert_eq!(total_pages_from_header(None), 1);
    assert_eq!(total_pages_from_header(Some(b"")), 1);
    assert_eq!(total_pages_from_header(Some(b"+")), 1);
    assert_eq!(total_pages_from_header(Some(b"abc")), 1);
    assert_eq!(total_pages_from_header(Some(b"12a")), 1);
    assert_eq!(total_pages_from_header(Some(b"-3")), 1);
    assert_eq!(total_pages_from_header(Some(b" 4")), 1);
    assert_eq!(total_pages_from_header(Some(b"99999999999999999999999999")), 1);
}

#[test]
fn page_count_largest_value() {
    let max = usize::MAX.to_string();
    assert_eq!(total_pages_from_header(Some(max.as_bytes())), usize::MAX);
}

#[test]
fn decimal_digits() {
    let mut s = String::from("n=");
    push_decimal(&mut s, 0);
    assert_eq!(s, "n=0");
    let mut s = String::new();
    push_decimal(&mut s, 1_234_567_890);
    assert_eq!(s, "1234567890");
}

fn creds() -> Credentials {
    Credentials { token: "SECRET-REDACTED".to_string(), url: "https://ci.example/".to_string() }
}

#[test]
fn pipeline_feed_address() {
    let c = creds();
    assert_eq!(
        pipeline_jobs(&c.url, "197", 42, &None),
        "https://ci.example//api/v4/projects/197/pipelines/42/jobs?per_page=20&include_retried=Yes"
    );
    assert_eq!(
        pipeline_jobs(&c.url, "197", 42, &Some("failed".to_string())),
        "https://ci.example//api/v4/projects/197/pipelines/42/jobs?per_page=20&scope=failed&include_retried=Yes"
    );
}

#[test]
fn runner_feed_and_page_addresses() {
    let feed = runner_jobs("https://ci.example", 9);
    assert_eq!(feed, "https://ci.example/api/v4/runners/9/jobs?order_by=id&per_page=10");
    assert_eq!(
        page_url(&feed, 12),
        "https://ci.example/api/v4/runners/9/jobs?order_by=id&per_page=10&page=12"
    );
    assert_eq!(
        project_pipelines("https://ci.example", "group%2Fproj"),
        "https://ci.example/api/v4/projects/group%2Fproj/pipelines?per_page=100"
    );
}

#[test]
fn next_link_is_found() {
    let h = "<https://ci.example/p?page=1>; rel=\"first\", <https://ci.example/p?page=3>; rel=\"next\", <https://ci.example/p?page=9>; rel=\"last\"";
    assert_eq!(parse_next_page(h), Some("https://ci.example/p?page=3".to_string()));
}

#[test]
fn no_next_link() {
    let h = "<https://ci.example/p?page=1>; rel=\"first\", <https://ci.example/p?page=9>; rel=\"last\"";
    assert_eq!(parse_next_page(h), None);
    assert_eq!(parse_next_page(""), None);
    assert_eq!(parse_next_page("garbage"), None);
}

#[test]
fn next_link_spacing_and_last_wins() {
    assert_eq!(parse_next_page("<a>;rel=\"next\""), Some("a".to_string()));
    assert_eq!(parse_next_page("x <b>;  \t rel=\"next\" y"), Some("b".to_string()));
    assert_eq!(parse_next_page("<a>; rel=\"next\",<b>; rel=\"next\""), Some("b".to_string()));
    assert_eq!(parse_next_page("<a>; rel=\"prev\""), None);
    assert_eq!(parse_next_page("<a> ; rel=\"next\""), None);
}

#[test]
fn duration_text() {
    assert_eq!(format_seconds(0), "0s");
    assert_eq!(format_seconds(59), "59s");
    assert_eq!(format_seconds(61), "1m.1s");
    assert_eq!(format_seconds(3_600), "1h:0m.0s");
    assert_eq!(format_seconds(3_725), "1h:2m.5s");
    assert_eq!(format_seconds(90_061), "1d 1h:1m.1s");
}

#[test]
fn timestamps_compare_with_tolerance() {
    assert_eq!(compare_dates_with_tolerance(100, 120, 30), Ordering::Equal);
    assert_eq!(compare_dates_with_tolerance(100, 131, 30), Ordering::Less);
    assert_eq!(compare_dates_with_tolerance(200, 100, 30), Ordering::Greater);
    assert_eq!(compare_dates_with_tolerance(5, 5, -1), Ordering::Equal);
    assert_eq!(compare_dates_with_tolerance(i64::MIN, i64::MAX, 0), Ordering::Less);
}

#[test]
fn age_in_seconds() {
    assert_eq!(seconds_ago(1_000, 1_060), 60);
    assert_eq!(seconds_ago(i64::MIN, i64::MAX), (i64::MAX as i128) - (i64::MIN as i128));
}

#[test]
fn job_timestamps() {
    assert_eq!(job_timestamp(&None), Some(0));
    assert_eq!(job_timestamp(&Some("1970-01-01T00:01:00Z".to_string())), Some(60));
    assert_eq!(job_timestamp(&Some("2024-03-01T12:00:00.500+01:00".to_string())), Some(1_709_290_800));
    assert_eq!(job_timestamp(&Some("yesterday".to_string())), None);
}
