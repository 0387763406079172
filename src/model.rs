//! Plain data records exchanged with the CI service.
//!
//! Timestamps are whole seconds since the Unix epoch; a timestamp the
//! service leaves out reads as the epoch itself.  Durations are whole
//! seconds.
use vstd::prelude::*;

verus! {

/// Where the service lives and the bearer token that opens it.
#[derive(Clone, Debug)]
pub struct Credentials {
    pub token: String,
    pub url: String,
}

/// One artifact a job produced.
#[derive(Clone, Debug)]
pub struct Artifact {
    pub file_type: String,
    pub size: usize,
    pub filename: String,
    pub file_format: Option<String>,
}

/// The pipeline a job belongs to, as embedded in a job record.
#[derive(Clone, Debug)]
pub struct Pipeline {
    pub id: u32,
    pub project_id: u32,
    pub rref: String,
    pub status: String,
    pub sha: String,
    pub source: String,
    pub created_at: Option<String>,
    pub started_at: Option<String>,
    pub updated_at: Option<String>,
    pub finished_at: Option<String>,
    pub web_url: String,
}

/// A runner as listed by the service.
#[derive(Clone, Debug)]
pub struct Runner {
    pub id: usize,
    pub description: String,
    pub ip_address: Option<String>,
    pub active: bool,
    pub paused: bool,
    pub is_shared: bool,
    pub runner_type: String,
    pub name: Option<String>,
    pub online: Option<bool>,
    pub status: String,
}

/// A project as listed by the service.
#[derive(Clone, Debug)]
pub struct Project {
    pub avatar_url: Option<String>,
    pub created_at: String,
    pub default_branch: String,
    pub description: Option<String>,
    pub forks_count: usize,
    pub http_url_to_repo: String,
    pub id: usize,
    pub last_activity_at: String,
    pub name: String,
    pub name_with_namespace: String,
    pub path: String,
    pub path_with_namespace: String,
    pub readme_url: String,
    pub ssh_url_to_repo: String,
    pub star_count: usize,
    pub tag_list: Vec<String>,
    pub topics: Vec<String>,
    pub web_url: String,
}

/// The detailed view of one runner.
#[derive(Clone, Debug)]
pub struct RunnerDetail {
    pub id: usize,
    pub description: String,
    pub ip_address: Option<String>,
    pub active: bool,
    pub online: Option<bool>,
    pub is_shared: bool,
    pub runner_type: String,
    pub version: Option<String>,
    pub revision: Option<String>,
    pub tag_list: Vec<String>,
    pub projects: Option<Vec<Project>>,
}

/// One build job.  `created_at` is the key by which a job ages.
#[derive(Clone, Debug)]
pub struct Job {
    pub id: usize,
    pub status: String,
    pub stage: String,
    pub name: String,
    pub rref: String,
    pub tag: bool,
    pub created_at: i64,
    pub started_at: i64,
    pub finished_at: i64,
    pub duration: Option<u64>,
    pub queued_duration: Option<u64>,
    pub failure_reason: Option<String>,
    pub artifacts: Option<Vec<Artifact>>,
    pub artifacts_size: usize,
    pub pipeline: Pipeline,
    pub tag_list: Option<Vec<String>>,
    pub runner: Option<Runner>,
}

/// Sum of the sizes of the first `n` artifacts.
pub open spec fn sizes_sum(arts: Seq<Artifact>, n: int) -> nat
    decreases n,
{
    if n <= 0 || n > arts.len() {
        0
    } else {
        sizes_sum(arts, n - 1) + arts[n - 1].size as nat
    }
}

/// The total size of a job's artifacts, none counting as zero.
pub open spec fn artifacts_total(arts: Option<Vec<Artifact>>) -> nat {
    match arts {
        Some(v) => sizes_sum(v@, v@.len() as int),
        None => 0,
    }
}

/// The derived `artifacts_size` of a job: the sum of its artifacts' sizes,
/// held at `usize::MAX` when the sum does not fit.
pub fn artifacts_size(artifacts: &Option<Vec<Artifact>>) -> (r: usize)
    ensures
        artifacts_total(*artifacts) <= usize::MAX ==> r == artifacts_total(*artifacts),
        artifacts_total(*artifacts) > usize::MAX ==> r == usize::MAX,
{
    match artifacts {
        None => 0,
        Some(v) => {
            let mut total: usize = 0;
            let mut i: usize = 0;
            let mut saturated = false;
            while i < v.len()
                invariant
                    i <= v@.len(),
                    !saturated ==> total == sizes_sum(v@, i as int),
                    saturated ==> total == usize::MAX && sizes_sum(v@, i as int) > usize::MAX,
                decreases v@.len() - i,
            {
                let s = v[i].size;
                if saturated || total > usize::MAX - s {
                    saturated = true;
                    total = usize::MAX;
                } else {
                    total = total + s;
                }
                i = i + 1;
            }
            proof {
                lemma_sizes_sum_monotone(v@, i as int, v@.len() as int);
            }
            total
        },
    }
}

proof fn lemma_sizes_sum_monotone(arts: Seq<Artifact>, a: int, b: int)
    requires
        0 <= a <= b <= arts.len(),
    ensures
        sizes_sum(arts, a) <= sizes_sum(arts, b),
    decreases b - a,
{
    if a < b {
        lemma_sizes_sum_monotone(arts, a, b - 1);
    }
}

} // verus!
