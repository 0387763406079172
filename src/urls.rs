//! The addresses of the service's job feeds.
use vstd::prelude::*;
use vstd::string::StringExecFns;

verus! {

/// The decimal digit for `d` (taken modulo ten).
pub open spec fn digit_char(d: nat) -> char {
    let d = d % 10;
    if d == 0 { '0' } else if d == 1 { '1' } else if d == 2 { '2' } else if d == 3 { '3' }
    else if d == 4 { '4' } else if d == 5 { '5' } else if d == 6 { '6' } else if d == 7 { '7' }
    else if d == 8 { '8' } else { '9' }
}

/// `n` written in decimal, without leading zeros.
pub open spec fn decimal_text(n: nat) -> Seq<char>
    decreases n,
{
    if n < 10 {
        seq![digit_char(n)]
    } else {
        decimal_text(n / 10).push(digit_char(n % 10))
    }
}

fn digit_str(d: usize) -> (s: &'static str)
    requires
        d < 10,
    ensures
        s@ == seq![digit_char(d as nat)],
{
    proof {
        reveal_strlit("0");
        reveal_strlit("1");
        reveal_strlit("2");
        reveal_strlit("3");
        reveal_strlit("4");
        reveal_strlit("5");
        reveal_strlit("6");
        reveal_strlit("7");
        reveal_strlit("8");
        reveal_strlit("9");
    }
    if d == 0 { "0" } else if d == 1 { "1" } else if d == 2 { "2" } else if d == 3 { "3" }
    else if d == 4 { "4" } else if d == 5 { "5" } else if d == 6 { "6" } else if d == 7 { "7" }
    else if d == 8 { "8" } else { "9" }
}

/// Appends `n` in decimal to `s`.
pub fn push_decimal(s: &mut String, n: usize)
    ensures
        final(s)@ == old(s)@ + decimal_text(n as nat),
    decreases n,
{
    if n >= 10 {
        push_decimal(s, n / 10);
    }
    s.append(digit_str(n % 10));
    proof {
        if n < 10 {
            assert(decimal_text(n as nat) == seq![digit_char(n as nat)]);
        }
    }
}

/// `{base}/api/v4/projects/{project}/pipelines/{pipeline}/jobs?per_page=20`,
/// then `&scope={status}` when a status is given, then
/// `&include_retried=Yes`.
pub open spec fn pipeline_jobs_url(base: Seq<char>, project: Seq<char>, pipeline: nat, status: Option<Seq<char>>) -> Seq<char> {
    base + "/api/v4/projects/"@ + project + "/pipelines/"@ + decimal_text(pipeline)
        + "/jobs?per_page=20"@ + match status {
        Some(s) => "&scope="@ + s,
        None => Seq::empty(),
    } + "&include_retried=Yes"@
}

/// `{base}/api/v4/runners/{runner}/jobs?order_by=id&per_page=10`.
pub open spec fn runner_jobs_url(base: Seq<char>, runner: nat) -> Seq<char> {
    base + "/api/v4/runners/"@ + decimal_text(runner) + "/jobs?order_by=id&per_page=10"@
}

/// `{base}/api/v4/projects/{project}/pipelines?per_page=100`.
pub open spec fn pipelines_url(base: Seq<char>, project: Seq<char>) -> Seq<char> {
    base + "/api/v4/projects/"@ + project + "/pipelines?per_page=100"@
}

/// `{feed}&page={page}`.
pub open spec fn page_url_of(feed: Seq<char>, page: nat) -> Seq<char> {
    feed + "&page="@ + decimal_text(page)
}

/// The unpaged address of a pipeline's job feed.
pub fn pipeline_jobs(base: &str, project: &str, pipeline: usize, status: &Option<String>) -> (r: String)
    ensures
        r@ == pipeline_jobs_url(
            base@,
            project@,
            pipeline as nat,
            match status {
                Some(s) => Some(s@),
                None => None,
            },
        ),
{
    let mut s = String::from_str(base);
    s.append("/api/v4/projects/");
    s.append(project);
    s.append("/pipelines/");
    push_decimal(&mut s, pipeline);
    s.append("/jobs?per_page=20");
    match status {
        Some(st) => {
            s.append("&scope=");
            s.append(st.as_str());
        },
        None => {},
    }
    s.append("&include_retried=Yes");
    proof {
        let st = match status {
            Some(x) => Some(x@),
            None => None,
        };
        assert(s@ =~= pipeline_jobs_url(base@, project@, pipeline as nat, st));
    }
    s
}

/// The unpaged address of a runner's job feed, oldest job first.
pub fn runner_jobs(base: &str, runner: usize) -> (r: String)
    ensures
        r@ == runner_jobs_url(base@, runner as nat),
{
    let mut s = String::from_str(base);
    s.append("/api/v4/runners/");
    push_decimal(&mut s, runner);
    s.append("/jobs?order_by=id&per_page=10");
    proof {
        assert(s@ =~= runner_jobs_url(base@, runner as nat));
    }
    s
}

/// The address of the first page of a project's pipeline list.
pub fn project_pipelines(base: &str, project: &str) -> (r: String)
    ensures
        r@ == pipelines_url(base@, project@),
{
    let mut s = String::from_str(base);
    s.append("/api/v4/projects/");
    s.append(project);
    s.append("/pipelines?per_page=100");
    proof {
        assert(s@ =~= pipelines_url(base@, project@));
    }
    s
}

/// The address of page `page` of the feed at `feed`.
pub fn page_url(feed: &str, page: usize) -> (r: String)
    ensures
        r@ == page_url_of(feed@, page as nat),
{
    let mut s = String::from_str(feed);
    s.append("&page=");
    push_decimal(&mut s, page);
    proof {
        assert(s@ =~= page_url_of(feed@, page as nat));
    }
    s
}

} // verus!
