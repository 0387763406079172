//! Choosing pipelines, page by page, from the service's pipeline list
//! (newest first).
use vstd::prelude::*;
use crate::dates::{parse_rfc3339, rfc3339_seconds};
use crate::links::{next_link, parse_next_page};
use crate::model::{Credentials, Pipeline};
use crate::urls::{pipelines_url, project_pipelines};

verus! {

/// When pipeline `p` was created, if it says so readably.
pub open spec fn created_seconds(p: Pipeline) -> Option<int> {
    match p.created_at {
        Some(s) => rfc3339_seconds(s@),
        None => None,
    }
}

/// The pipeline search: how old a pipeline may be, and the source and ref
/// it must have (any when not given).
pub open spec fn pipeline_wanted(
    p: Pipeline,
    created: Option<int>,
    max_age: u64,
    source: Option<String>,
    rref: Option<String>,
    now: i64,
) -> bool {
    &&& created is Some
    &&& now as int - created->0 <= max_age as int
    &&& source is Some ==> source->0@ == p.source@
    &&& rref is Some ==> rref->0@ == p.rref@
}

/// A pipeline created at `created` is older than `max_age`.
pub open spec fn pipeline_too_old(created: Option<int>, max_age: u64, now: i64) -> bool {
    created is Some && now as int - created->0 > max_age as int
}

/// The wanted pipelines among the first `n` of `page`, whose creation times
/// are `created`, in their order.
pub open spec fn wanted_prefix(
    page: Seq<Pipeline>,
    created: Seq<Option<int>>,
    n: int,
    max_age: u64,
    source: Option<String>,
    rref: Option<String>,
    now: i64,
) -> Seq<Pipeline>
    decreases n,
{
    if n <= 0 {
        Seq::empty()
    } else {
        let rest = wanted_prefix(page, created, n - 1, max_age, source, rref, now);
        if pipeline_wanted(page[n - 1], created[n - 1], max_age, source, rref, now) {
            rest.push(page[n - 1])
        } else {
            rest
        }
    }
}

/// A creation time as a mathematical integer.
pub open spec fn opt_int(o: Option<i64>) -> Option<int> {
    match o {
        Some(t) => Some(t as int),
        None => None,
    }
}

/// The creation times as mathematical integers.
pub open spec fn times_view(v: Seq<Option<i64>>) -> Seq<Option<int>> {
    v.map_values(|o: Option<i64>| opt_int(o))
}

/// Sorts one page of pipelines whose creation times are `created` (none
/// where a pipeline gives none readably): returns those no older than
/// `max_age` at time `now`, of `source` and `rref` when given, in their
/// order, and whether some pipeline of the page is older than `max_age`,
/// which ends the search.  A pipeline without a readable creation time is
/// not returned and ends nothing.
pub fn sift_pipelines(
    page: Vec<Pipeline>,
    created: &Vec<Option<i64>>,
    max_age: u64,
    source: &Option<String>,
    rref: &Option<String>,
    now: i64,
) -> (r: (Vec<Pipeline>, bool))
    requires
        created@.len() == page@.len(),
    ensures
        r.0@ == wanted_prefix(
            page@,
            times_view(created@),
            page@.len() as int,
            max_age,
            *source,
            *rref,
            now,
        ),
        r.1 == exists|i: int|
            0 <= i < page@.len() && pipeline_too_old(#[trigger] times_view(created@)[i], max_age, now),
{
    let ghost orig = page@;
    let ghost times = times_view(created@);
    let mut rest = page;
    let mut out: Vec<Pipeline> = Vec::new();
    let mut past = false;
    let mut k: usize = 0;
    let n = created.len();
    while rest.len() > 0
        invariant
            k <= orig.len(),
            n == orig.len(),
            created@.len() == orig.len(),
            times == times_view(created@),
            rest@ == orig.subrange(k as int, orig.len() as int),
            out@ == wanted_prefix(orig, times, k as int, max_age, *source, *rref, now),
            past == exists|i: int| 0 <= i < k && pipeline_too_old(#[trigger] times[i], max_age, now),
        decreases rest@.len(),
    {
        let p = rest.remove(0);
        proof {
            assert(p == orig[k as int]);
        }
        let t = created[k];
        proof {
            assert(times[k as int] == match t {
                Some(x) => Some(x as int),
                None => None::<int>,
            });
        }
        let (too_old, wanted) = match t {
            Some(c) => {
                let age = now as i128 - c as i128;
                let source_ok = match source {
                    Some(s) => *s == p.source,
                    None => true,
                };
                let rref_ok = match rref {
                    Some(s) => *s == p.rref,
                    None => true,
                };
                (age > max_age as i128, age <= max_age as i128 && source_ok && rref_ok)
            },
            None => (false, false),
        };
        if too_old {
            past = true;
        }
        if wanted {
            out.push(p);
        }
        proof {
            if past && !too_old {
                let w = choose|i: int| 0 <= i < k && pipeline_too_old(#[trigger] times[i], max_age, now);
            }
        }
        k = k + 1;
        proof {
            assert(rest@ =~= orig.subrange(k as int, orig.len() as int));
        }
    }
    (out, past)
}

/// Sorts one page of pipelines as `sift_pipelines` does, reading each
/// pipeline's creation time from its RFC 3339 timestamp.
pub fn sift_pipeline_page(
    page: Vec<Pipeline>,
    max_age: u64,
    source: &Option<String>,
    rref: &Option<String>,
    now: i64,
) -> (r: (Vec<Pipeline>, bool))
    ensures
        r.0@ == wanted_prefix(
            page@,
            page@.map_values(|p: Pipeline| created_seconds(p)),
            page@.len() as int,
            max_age,
            *source,
            *rref,
            now,
        ),
        r.1 == exists|i: int|
            0 <= i < page@.len() && pipeline_too_old(#[trigger] created_seconds(page@[i]), max_age, now),
{
    let mut created: Vec<Option<i64>> = Vec::new();
    let mut i: usize = 0;
    while i < page.len()
        invariant
            i <= page@.len(),
            created@.len() == i,
            forall|k: int| 0 <= k < i ==> opt_int(#[trigger] created@[k]) == created_seconds(page@[k]),
        decreases page@.len() - i,
    {
        let t = match &page[i].created_at {
            Some(s) => parse_rfc3339(s.as_str()),
            None => None,
        };
        proof {
            assert(opt_int(t) == created_seconds(page@[i as int]));
        }
        created.push(t);
        i = i + 1;
        proof {
            assert forall|k: int| 0 <= k < i implies opt_int(#[trigger] created@[k]) == created_seconds(page@[k]) by {
                if k < i - 1 {
                    assert(created@[k] == created@.drop_last()[k]);
                }
            }
        }
    }
    let ghost pv = page@;
    let ghost times = times_view(created@);
    proof {
        assert(times =~= pv.map_values(|p: Pipeline| created_seconds(p)));
    }
    let r = sift_pipelines(page, &created, max_age, source, rref, now);
    proof {
        if r.1 {
            let w = choose|i: int| 0 <= i < pv.len() && pipeline_too_old(#[trigger] times[i], max_age, now);
            assert(times[w] == created_seconds(pv[w]));
        }
        if exists|i: int| 0 <= i < pv.len() && pipeline_too_old(#[trigger] created_seconds(pv[i]), max_age, now) {
            let w = choose|i: int| 0 <= i < pv.len() && pipeline_too_old(#[trigger] created_seconds(pv[i]), max_age, now);
            assert(times[w] == created_seconds(pv[w]));
        }
    }
    r
}

/// A search through a project's pipeline list, newest page first: it
/// follows the `next` links until a page reaches past the age bound or no
/// page is left.
pub struct PipelineSearch {
    pub max_age: u64,
    pub source: Option<String>,
    pub rref: Option<String>,
    pub now: i64,
    /// The wanted pipelines found so far, newest first.
    pub found: Vec<Pipeline>,
    /// The address of the page to fetch next, if any.
    pub next: Option<String>,
}

impl PipelineSearch {
    /// A search for the pipelines of `project` no older than `max_age` at
    /// time `now`, of `source` and `rref` when given.
    pub fn new(
        credentials: &Credentials,
        project: &str,
        max_age: u64,
        source: Option<String>,
        rref: Option<String>,
        now: i64,
    ) -> (s: PipelineSearch)
        ensures
            s.max_age == max_age,
            s.source == source,
            s.rref == rref,
            s.now == now,
            s.found@.len() == 0,
            s.next is Some && s.next->0@ == pipelines_url(credentials.url@, project@),
    {
        PipelineSearch {
            max_age,
            source,
            rref,
            now,
            found: Vec::new(),
            next: Some(project_pipelines(credentials.url.as_str(), project)),
        }
    }

    /// Takes in a fetched page and the `Link` header that came with it: its
    /// wanted pipelines join those found, and the search goes on to the
    /// header's `next` link unless the page reached past the age bound.
    pub fn take_page(&mut self, link_header: &str, page: Vec<Pipeline>)
        ensures
            final(self).max_age == old(self).max_age,
            final(self).source == old(self).source,
            final(self).rref == old(self).rref,
            final(self).now == old(self).now,
            final(self).found@ == old(self).found@ + wanted_prefix(
                page@,
                page@.map_values(|p: Pipeline| created_seconds(p)),
                page@.len() as int,
                old(self).max_age,
                old(self).source,
                old(self).rref,
                old(self).now,
            ),
            (exists|i: int|
                0 <= i < page@.len() && pipeline_too_old(
                    #[trigger] created_seconds(page@[i]),
                    old(self).max_age,
                    old(self).now,
                )) ==> final(self).next is None,
            !(exists|i: int|
                0 <= i < page@.len() && pipeline_too_old(
                    #[trigger] created_seconds(page@[i]),
                    old(self).max_age,
                    old(self).now,
                )) ==> match final(self).next {
                Some(u) => next_link(link_header@) == Some(u@),
                None => next_link(link_header@) is None,
            },
    {
        let next = parse_next_page(link_header);
        let (mut kept, past) = sift_pipeline_page(page, self.max_age, &self.source, &self.rref, self.now);
        self.next = if past { None } else { next };
        self.found.append(&mut kept);
    }

    /// The pipelines found, oldest first.
    pub fn into_pipelines(self) -> (r: Vec<Pipeline>)
        ensures
            r@.len() == self.found@.len(),
            forall|i: int| 0 <= i < r@.len() ==> #[trigger] r@[i] == self.found@[self.found@.len() - 1 - i],
    {
        let ghost orig = self.found@;
        let mut found = self.found;
        let mut out: Vec<Pipeline> = Vec::new();
        while found.len() > 0
            invariant
                found@ == orig.subrange(0, found@.len() as int),
                found@.len() <= orig.len(),
                out@.len() + found@.len() == orig.len(),
                forall|i: int| 0 <= i < out@.len() ==> #[trigger] out@[i] == orig[orig.len() - 1 - i],
            decreases found@.len(),
        {
            let p = found.pop().unwrap();
            out.push(p);
        }
        out
    }
}

} // verus!
