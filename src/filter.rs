//! The rules that decide whether a job record is kept.
use vstd::prelude::*;
use crate::dates::seconds_ago;
use crate::model::Job;

verus! {

/// What a query keeps: jobs with one of the given names (any name when
/// there is no list), with the given status (any when there is none), and
/// no older than `max_age` seconds (any age when there is no bound).
#[derive(Clone, Debug)]
pub struct FetchFilter {
    pub names: Option<Vec<String>>,
    pub status: Option<String>,
    pub max_age: Option<u64>,
}

/// Seconds from `created_at` to `now`; negative for a time after `now`.
pub open spec fn age_of(created_at: i64, now: i64) -> int {
    now as int - created_at as int
}

/// A record created at `created_at` is within the bound at time `now`.
pub open spec fn within_age(created_at: i64, now: i64, max_age: Option<u64>) -> bool {
    match max_age {
        Some(m) => age_of(created_at, now) <= m as int,
        None => true,
    }
}

pub open spec fn name_listed(names: Option<Vec<String>>, name: Seq<char>) -> bool {
    match names {
        Some(v) => exists|i: int| 0 <= i < v@.len() && (#[trigger] v@[i])@ == name,
        None => true,
    }
}

pub open spec fn status_matches(status: Option<String>, s: Seq<char>) -> bool {
    match status {
        Some(t) => t@ == s,
        None => true,
    }
}

/// Whether `name` is one of `names`.
fn name_in(names: &Vec<String>, name: &String) -> (r: bool)
    ensures
        r == exists|i: int| 0 <= i < names@.len() && (#[trigger] names@[i])@ == name@,
{
    let mut i: usize = 0;
    while i < names.len()
        invariant
            i <= names@.len(),
            forall|k: int| 0 <= k < i ==> (#[trigger] names@[k])@ != name@,
        decreases names@.len() - i,
    {
        if names[i] == *name {
            assert(names@[i as int]@ == name@);
            return true;
        }
        i = i + 1;
    }
    false
}

impl FetchFilter {
    /// The record is kept: name, status and age all pass.
    pub open spec fn accepts(self, job: Job, now: i64) -> bool {
        name_listed(self.names, job.name@) && status_matches(self.status, job.status@)
            && within_age(job.created_at, now, self.max_age)
    }

    /// The record is older than the bound.
    pub open spec fn is_stale(self, job: Job, now: i64) -> bool {
        !within_age(job.created_at, now, self.max_age)
    }

    /// The filter that keeps everything.
    pub open spec fn keeps_all(self) -> bool {
        self.names is None && self.status is None && self.max_age is None
    }

    /// The records of `page` that the filter keeps, in their order.
    pub open spec fn kept(self, page: Seq<Job>, now: i64) -> Seq<Job> {
        page.filter(|j: Job| self.accepts(j, now))
    }

    /// Some record of `page` is older than the bound.
    pub open spec fn any_stale(self, page: Seq<Job>, now: i64) -> bool {
        exists|i: int| 0 <= i < page.len() && self.is_stale(#[trigger] page[i], now)
    }

    /// Whether `job` is older than the bound at time `now`.
    pub fn stale(&self, job: &Job, now: i64) -> (r: bool)
        ensures
            r == self.is_stale(*job, now),
    {
        match self.max_age {
            Some(m) => seconds_ago(job.created_at, now) > m as i128,
            None => false,
        }
    }

    /// Whether the filter keeps `job` at time `now`.
    pub fn keeps(&self, job: &Job, now: i64) -> (r: bool)
        ensures
            r == self.accepts(*job, now),
    {
        if self.stale(job, now) {
            return false;
        }
        let status_ok = match &self.status {
            Some(s) => *s == job.status,
            None => true,
        };
        if !status_ok {
            return false;
        }
        match &self.names {
            None => true,
            Some(v) => name_in(v, &job.name),
        }
    }

    /// Splits one page: hands back the records the filter keeps, in their
    /// order, and whether any record of the page is older than the bound.
    pub fn sift(&self, page: Vec<Job>, now: i64) -> (r: (Vec<Job>, bool))
        ensures
            r.0@ == self.kept(page@, now),
            r.1 == self.any_stale(page@, now),
    {
        let ghost orig = page@;
        let mut rest = page;
        let mut out: Vec<Job> = Vec::new();
        let mut stale = false;
        let ghost mut k: int = 0;
        while rest.len() > 0
            invariant
                0 <= k <= orig.len(),
                rest@ == orig.subrange(k, orig.len() as int),
                out@ == self.kept(orig.subrange(0, k), now),
                stale == self.any_stale(orig.subrange(0, k), now),
            decreases rest@.len(),
        {
            let job = rest.remove(0);
            proof {
                assert(job == orig[k]);
                assert(orig.subrange(0, k + 1) == orig.subrange(0, k).push(job));
                orig.subrange(0, k).lemma_filter_push(job, |j: Job| self.accepts(j, now));
            }
            if self.stale(&job, now) {
                stale = true;
            }
            if self.keeps(&job, now) {
                out.push(job);
            }
            proof {
                k = k + 1;
                assert(rest@ == orig.subrange(k, orig.len() as int));
                let s = orig.subrange(0, k);
                let p = orig.subrange(0, k - 1);
                assert(s =~= p.push(job));
                if self.any_stale(p, now) {
                    let w = choose|i: int| 0 <= i < p.len() && self.is_stale(#[trigger] p[i], now);
                    assert(s[w] == p[w]);
                }
                if self.any_stale(s, now) && !self.is_stale(job, now) {
                    let w = choose|i: int| 0 <= i < s.len() && self.is_stale(#[trigger] s[i], now);
                    assert(p[w] == s[w]);
                }
                if self.is_stale(job, now) {
                    assert(s[k - 1] == job);
                }
            }
        }
        proof {
            assert(orig.subrange(0, k) == orig);
        }
        (out, stale)
    }
}

} // verus!
