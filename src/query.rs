//! One job query over many parent resources.
//!
//! Each parent resource (a pipeline, or a runner's job feed) gets a
//! harvest of its own; all of them draw their requests from one shared gate.
//! The query hands out requests, takes in their outcomes, and at the end
//! either fails with the first parent whose first page could not be had, or
//! returns every kept record, filtered once more.
use vstd::prelude::*;
use crate::filter::FetchFilter;
use crate::gate::Gate;
use crate::harvest::{lemma_kept_whole, lemma_unbounded_harvest_keeps_all, Harvest, PageOutcome};
use crate::model::{Credentials, Job};
use crate::urls::{page_url, page_url_of, pipeline_jobs, pipeline_jobs_url, runner_jobs, runner_jobs_url};

verus! {

/// Requests allowed at once for a query over pipelines.
pub const JOB_PERMITS: usize = 30;

/// Requests allowed at once for a query over a runner's job feed.
pub const RUNNER_PERMITS: usize = 10;

/// A page to fetch: page `page` (counted from one) of parent `parent`.
#[derive(Clone, Copy, Debug, PartialEq, Eq)]
pub struct Request {
    pub parent: usize,
    pub page: usize,
}

/// The first page of parent `parent` could not be had; `detail` says why.
#[derive(Clone, Debug)]
pub struct HarvestError {
    pub parent: usize,
    pub detail: String,
}

/// The number of harvests that await an answer.
pub open spec fn waiting_count(s: Seq<Harvest>) -> nat
    decreases s.len(),
{
    if s.len() == 0 {
        0
    } else {
        waiting_count(s.drop_last()) + if s.last().waiting {
            1nat
        } else {
            0nat
        }
    }
}

/// Every kept record of every harvest, parent after parent.
pub open spec fn all_records(s: Seq<Harvest>) -> Seq<Job> {
    s.map_values(|h: Harvest| h.records@).flatten()
}

proof fn lemma_waiting_count_update(s: Seq<Harvest>, i: int, h: Harvest)
    requires
        0 <= i < s.len(),
    ensures
        waiting_count(s.update(i, h)) + (if s[i].waiting { 1int } else { 0int }) == waiting_count(s)
            + (if h.waiting { 1int } else { 0int }),
    decreases s.len(),
{
    if i == s.len() - 1 {
        assert(s.update(i, h).drop_last() =~= s.drop_last());
    } else {
        lemma_waiting_count_update(s.drop_last(), i, h);
        assert(s.update(i, h).drop_last() =~= s.drop_last().update(i, h));
    }
}

proof fn lemma_waiting_count_positive(s: Seq<Harvest>, i: int)
    requires
        0 <= i < s.len(),
        s[i].waiting,
    ensures
        waiting_count(s) >= 1,
    decreases s.len(),
{
    if i < s.len() - 1 {
        lemma_waiting_count_positive(s.drop_last(), i);
    }
}

proof fn lemma_all_records_push(s: Seq<Harvest>, h: Harvest)
    ensures
        all_records(s.push(h)) == all_records(s) + h.records@,
{
    let f = |x: Harvest| x.records@;
    assert(s.push(h).map_values(f) =~= s.map_values(f).push(h.records@));
    s.map_values(f).lemma_flatten_push(h.records@);
}

/// Harvests of many parents under one gate.
pub struct JobQuery {
    pub filter: FetchFilter,
    pub now: i64,
    pub gate: Gate,
    pub feeds: Vec<Harvest>,
    /// The unpaged address of each parent's feed.
    pub urls: Vec<String>,
}

impl JobQuery {
    pub open spec fn wf(self) -> bool {
        &&& forall|i: int| 0 <= i < self.feeds@.len() ==> (#[trigger] self.feeds@[i]).wf(self.filter, self.now)
        &&& self.gate.wf()
        &&& self.gate.in_use == waiting_count(self.feeds@)
        &&& self.urls@.len() == self.feeds@.len()
    }

    /// Some parent's first page could not be had.
    pub open spec fn failed(self) -> bool {
        exists|i: int| 0 <= i < self.feeds@.len() && (#[trigger] self.feeds@[i]).failure is Some
    }

    /// Nothing is left to request or await.
    pub open spec fn settled(self) -> bool {
        forall|i: int| 0 <= i < self.feeds@.len() ==> (#[trigger] self.feeds@[i]).is_done()
    }

    /// A query over the feeds at `urls`, one parent resource each, at time
    /// `now`, with `capacity` requests allowed at once.
    pub fn new(filter: FetchFilter, now: i64, urls: Vec<String>, capacity: usize) -> (q: JobQuery)
        ensures
            q.wf(),
            q.filter == filter,
            q.now == now,
            q.gate.capacity == capacity,
            q.gate.in_use == 0,
            q.urls == urls,
            forall|i: int| 0 <= i < q.feeds@.len() ==> (#[trigger] q.feeds@[i]).requested == 0
                && !q.feeds@[i].waiting && q.feeds@[i].failure is None && q.feeds@[i].received@.len() == 0,
    {
        let parents = urls.len();
        let mut feeds: Vec<Harvest> = Vec::new();
        let mut i: usize = 0;
        while i < parents
            invariant
                i <= parents,
                feeds@.len() == i,
                waiting_count(feeds@) == 0,
                forall|k: int| 0 <= k < i ==> (#[trigger] feeds@[k]).wf(filter, now) && feeds@[k].requested == 0
                    && !feeds@[k].waiting && feeds@[k].failure is None && feeds@[k].received@.len() == 0,
            decreases parents - i,
        {
            let h = Harvest::new();
            let ghost before = feeds@;
            feeds.push(h);
            proof {
                assert(feeds@.drop_last() =~= before);
            }
            i = i + 1;
        }
        JobQuery { filter, now, gate: Gate::new(capacity), feeds, urls }
    }

    /// The query for the jobs of `pipelines` in `project`: one feed per
    /// pipeline, keeping the jobs that `names`, `status` and `max_age` allow
    /// at time `now`.
    pub fn for_pipelines(
        credentials: &Credentials,
        project: &str,
        pipelines: &Vec<usize>,
        names: Option<Vec<String>>,
        max_age: Option<u64>,
        status: Option<String>,
        now: i64,
    ) -> (q: JobQuery)
        ensures
            q.wf(),
            q.filter == (FetchFilter { names, status, max_age }),
            q.now == now,
            q.gate.capacity == JOB_PERMITS,
            q.gate.in_use == 0,
            q.urls@.len() == pipelines@.len(),
            forall|i: int| 0 <= i < pipelines@.len() ==> (#[trigger] q.urls@[i])@ == pipeline_jobs_url(
                credentials.url@,
                project@,
                pipelines@[i] as nat,
                match status {
                    Some(s) => Some(s@),
                    None => None,
                },
            ),
            forall|i: int| 0 <= i < q.feeds@.len() ==> (#[trigger] q.feeds@[i]).requested == 0,
    {
        let mut urls: Vec<String> = Vec::new();
        let mut i: usize = 0;
        while i < pipelines.len()
            invariant
                i <= pipelines@.len(),
                urls@.len() == i,
                forall|k: int| 0 <= k < i ==> (#[trigger] urls@[k])@ == pipeline_jobs_url(
                    credentials.url@,
                    project@,
                    pipelines@[k] as nat,
                    match status {
                        Some(s) => Some(s@),
                        None => None,
                    },
                ),
            decreases pipelines@.len() - i,
        {
            urls.push(pipeline_jobs(credentials.url.as_str(), project, pipelines[i], &status));
            i = i + 1;
        }
        JobQuery::new(FetchFilter { names, status, max_age }, now, urls, JOB_PERMITS)
    }

    /// The query for the jobs of runner `runner_id` no older than `max_age`
    /// at time `now`: one feed, any name, any status.
    pub fn for_runner(credentials: &Credentials, runner_id: usize, max_age: u64, now: i64) -> (q: JobQuery)
        ensures
            q.wf(),
            q.filter == (FetchFilter { names: None, status: None, max_age: Some(max_age) }),
            q.now == now,
            q.gate.capacity == RUNNER_PERMITS,
            q.gate.in_use == 0,
            q.urls@.len() == 1,
            q.urls@[0]@ == runner_jobs_url(credentials.url@, runner_id as nat),
            forall|i: int| 0 <= i < q.feeds@.len() ==> (#[trigger] q.feeds@[i]).requested == 0,
    {
        let mut urls: Vec<String> = Vec::new();
        urls.push(runner_jobs(credentials.url.as_str(), runner_id));
        JobQuery::new(
            FetchFilter { names: None, status: None, max_age: Some(max_age) },
            now,
            urls,
            RUNNER_PERMITS,
        )
    }

    /// The address to fetch for `request`.
    pub fn request_url(&self, request: Request) -> (r: String)
        requires
            self.wf(),
            request.parent < self.feeds@.len(),
        ensures
            r@ == page_url_of(self.urls@[request.parent as int]@, request.page as nat),
    {
        page_url(self.urls[request.parent].as_str(), request.page)
    }

    /// `next` is this query with parent `parent`'s next page marked as
    /// requested and one more permit taken.
    pub open spec fn started(self, parent: int, next: JobQuery) -> bool {
        let (h, n) = (self.feeds@[parent], next.feeds@[parent]);
        &&& next.filter == self.filter
        &&& next.now == self.now
        &&& next.gate.capacity == self.gate.capacity
        &&& next.gate.in_use == self.gate.in_use + 1
        &&& next.feeds@.len() == self.feeds@.len()
        &&& next.urls == self.urls
        &&& forall|j: int| 0 <= j < self.feeds@.len() && j != parent ==> next.feeds@[j] == self.feeds@[j]
        &&& n.requested == h.requested + 1
        &&& n.waiting
        &&& n.total_pages == h.total_pages
        &&& n.cutoff == h.cutoff
        &&& n.failure == h.failure
        &&& n.records == h.records
        &&& n.received == h.received
    }

    /// Hands out the next page to fetch, taking a permit for it; nothing
    /// when the query has failed, when every permit is taken, or when no
    /// parent has a page to request.  Parents are served in their order.
    pub fn next_request(&mut self) -> (r: Option<Request>)
        requires
            old(self).wf(),
        ensures
            final(self).wf(),
            match r {
                Some(q) => {
                    &&& !old(self).failed()
                    &&& old(self).gate.in_use < old(self).gate.capacity
                    &&& q.parent < old(self).feeds@.len()
                    &&& old(self).feeds@[q.parent as int].wants_request()
                    &&& forall|j: int| 0 <= j < q.parent ==> !(#[trigger] old(self).feeds@[j]).wants_request()
                    &&& q.page == old(self).feeds@[q.parent as int].requested + 1
                    &&& old(self).started(q.parent as int, *final(self))
                },
                None => {
                    &&& *final(self) == *old(self)
                    &&& old(self).failed() || old(self).gate.in_use == old(self).gate.capacity
                        || forall|j: int| 0 <= j < old(self).feeds@.len() ==> !(#[trigger] old(self).feeds@[j]).wants_request()
                },
            },
    {
        if self.has_failed() || self.gate.in_use >= self.gate.capacity {
            return None;
        }
        let mut i: usize = 0;
        while i < self.feeds.len()
            invariant
                self == old(self),
                self.wf(),
                !self.failed(),
                self.gate.in_use < self.gate.capacity,
                i <= self.feeds@.len(),
                forall|k: int| 0 <= k < i ==> !(#[trigger] self.feeds@[k]).wants_request(),
            decreases self.feeds@.len() - i,
        {
            if self.feeds[i].has_request() {
                let ghost before = self.feeds@;
                assert(before[i as int].wf(self.filter, self.now));
                let _ = self.gate.try_acquire();
                let page = self.feeds[i].start();
                proof {
                    lemma_waiting_count_update(before, i as int, self.feeds@[i as int]);
                    assert(self.feeds@ == before.update(i as int, self.feeds@[i as int]));
                }
                return Some(Request { parent: i, page });
            }
            i = i + 1;
        }
        None
    }

    /// Takes in the outcome of the outstanding request of parent `parent`
    /// and gives its permit back.
    pub fn deliver(&mut self, parent: usize, outcome: PageOutcome)
        requires
            old(self).wf(),
            parent < old(self).feeds@.len(),
            old(self).feeds@[parent as int].waiting,
        ensures
            final(self).wf(),
            final(self).filter == old(self).filter,
            final(self).now == old(self).now,
            final(self).gate.capacity == old(self).gate.capacity,
            final(self).gate.in_use == old(self).gate.in_use - 1,
            final(self).urls == old(self).urls,
            final(self).feeds@.len() == old(self).feeds@.len(),
            forall|j: int| 0 <= j < old(self).feeds@.len() && j != parent ==> final(self).feeds@[j] == old(self).feeds@[j],
            !final(self).feeds@[parent as int].waiting,
            old(self).failed() ==> final(self).failed(),
            final(self).feeds@[parent as int].requested == old(self).feeds@[parent as int].requested,
            old(self).feeds@[parent as int].finished_with(
                outcome,
                old(self).filter,
                old(self).now,
                final(self).feeds@[parent as int],
            ),
    {
        let ghost before = self.feeds@;
        assert(before[parent as int].wf(self.filter, self.now));
        proof {
            lemma_waiting_count_update(before, parent as int, before[parent as int]);
            if before[parent as int].waiting {
                assert(waiting_count(before) >= 1) by {
                    lemma_waiting_count_positive(before, parent as int);
                }
            }
        }
        self.gate.release();
        let now = self.now;
        self.feeds[parent].finish(outcome, &self.filter, now);
        proof {
            lemma_waiting_count_update(before, parent as int, self.feeds@[parent as int]);
            assert(self.feeds@ == before.update(parent as int, self.feeds@[parent as int]));
            if old(self).failed() {
                let w = choose|j: int| 0 <= j < before.len() && (#[trigger] before[j]).failure is Some;
                assert(self.feeds@[w] == before[w]);
            }
        }
    }

    /// The outcome of the whole query: the first parent whose first page
    /// could not be had, if there is one, and otherwise every kept record,
    /// parent after parent, passed through the filter once more.
    pub fn into_result(self) -> (r: Result<Vec<Job>, HarvestError>)
        requires
            self.wf(),
        ensures
            r is Err <==> self.failed(),
            match r {
                Err(e) => {
                    &&& e.parent < self.feeds@.len()
                    &&& self.feeds@[e.parent as int].failure == Some(e.detail)
                    &&& forall|j: int| 0 <= j < e.parent ==> (#[trigger] self.feeds@[j]).failure is None
                },
                Ok(v) => v@ == self.filter.kept(all_records(self.feeds@), self.now),
            },
    {
        let mut i: usize = 0;
        while i < self.feeds.len()
            invariant
                i <= self.feeds@.len(),
                forall|k: int| 0 <= k < i ==> (#[trigger] self.feeds@[k]).failure is None,
            decreases self.feeds@.len() - i,
        {
            match &self.feeds[i].failure {
                Some(d) => {
                    return Err(HarvestError { parent: i, detail: d.clone() });
                },
                None => {},
            }
            i = i + 1;
        }
        let JobQuery { filter, now, gate: _, feeds, urls: _ } = self;
        let ghost all = feeds@;
        let mut rest = feeds;
        let mut out: Vec<Job> = Vec::new();
        let ghost mut k: int = 0;
        proof {
            assert(all_records(all.subrange(0, 0)) =~= Seq::<Job>::empty());
            assert(filter.kept(Seq::<Job>::empty(), now) =~= Seq::<Job>::empty());
        }
        while rest.len() > 0
            invariant
                0 <= k <= all.len(),
                rest@ == all.subrange(k, all.len() as int),
                out@ == filter.kept(all_records(all.subrange(0, k)), now),
            decreases rest@.len(),
        {
            let h = rest.remove(0);
            let ghost recs = h.records@;
            let (mut kept, _) = filter.sift(h.records, now);
            out.append(&mut kept);
            proof {
                assert(h == all[k]);
                let pre = all.subrange(0, k);
                assert(all.subrange(0, k + 1) =~= pre.push(h));
                lemma_all_records_push(pre, h);
                Seq::filter_distributes_over_add(all_records(pre), recs, |j: Job| filter.accepts(j, now));
                k = k + 1;
                assert(rest@ =~= all.subrange(k, all.len() as int));
            }
        }
        proof {
            assert(all.subrange(0, k) =~= all);
        }
        Ok(out)
    }

    /// Whether some parent's first page could not be had.
    pub fn has_failed(&self) -> (r: bool)
        ensures
            r == self.failed(),
    {
        let mut i: usize = 0;
        while i < self.feeds.len()
            invariant
                i <= self.feeds@.len(),
                forall|k: int| 0 <= k < i ==> (#[trigger] self.feeds@[k]).failure is None,
            decreases self.feeds@.len() - i,
        {
            if self.feeds[i].failure.is_some() {
                return true;
            }
            i = i + 1;
        }
        false
    }

    /// Whether the query is over: it failed, or nothing is left to request
    /// or await.
    pub fn is_finished(&self) -> (r: bool)
        ensures
            r == (self.failed() || self.settled()),
    {
        if self.has_failed() {
            return true;
        }
        let mut i: usize = 0;
        while i < self.feeds.len()
            invariant
                i <= self.feeds@.len(),
                forall|k: int| 0 <= k < i ==> (#[trigger] self.feeds@[k]).is_done(),
                !self.failed(),
            decreases self.feeds@.len() - i,
        {
            if !self.feeds[i].done() {
                assert(!self.feeds@[i as int].is_done());
                return false;
            }
            i = i + 1;
        }
        true
    }
}

/// The records of every harvest of a well-formed query pass its filter.
proof fn lemma_all_records_accepted(s: Seq<Harvest>, f: FetchFilter, now: i64)
    requires
        forall|i: int| 0 <= i < s.len() ==> (#[trigger] s[i]).wf(f, now),
    ensures
        forall|k: int| 0 <= k < all_records(s).len() ==> f.accepts(#[trigger] all_records(s)[k], now),
    decreases s.len(),
{
    if s.len() > 0 {
        let init = s.drop_last();
        assert forall|i: int| 0 <= i < init.len() implies (#[trigger] init[i]).wf(f, now) by {
            assert(init[i] == s[i]);
        }
        lemma_all_records_accepted(init, f, now);
        assert(init.push(s.last()) =~= s);
        lemma_all_records_push(init, s.last());
        let a = all_records(init);
        let b = s.last().records@;
        assert(s.last().wf(f, now));
        assert forall|k: int| 0 <= k < all_records(s).len() implies f.accepts(#[trigger] all_records(s)[k], now) by {
            if k < a.len() {
                assert(all_records(s)[k] == a[k]);
            } else {
                assert(all_records(s)[k] == b[k - a.len()]);
            }
        }
    } else {
        assert(all_records(s) =~= Seq::<Job>::empty());
    }
}

/// The second pass of the filter over the merged records drops nothing:
/// every record a harvest kept already passes the filter.
pub proof fn lemma_second_pass_keeps_all(q: JobQuery)
    requires
        q.wf(),
    ensures
        q.filter.kept(all_records(q.feeds@), q.now) == all_records(q.feeds@),
{
    lemma_all_records_accepted(q.feeds@, q.filter, q.now);
    lemma_kept_whole(q.filter, all_records(q.feeds@), q.now);
}

/// With no name, status or age bound, the query's result is exactly every
/// record of every page received, parent after parent, page after page.
pub proof fn lemma_unbounded_query_returns_everything(q: JobQuery)
    requires
        q.wf(),
        q.filter.keeps_all(),
    ensures
        q.filter.kept(all_records(q.feeds@), q.now) == q.feeds@.map_values(
            |h: Harvest| h.received@.flatten(),
        ).flatten(),
{
    lemma_second_pass_keeps_all(q);
    assert forall|i: int| 0 <= i < q.feeds@.len() implies #[trigger] q.feeds@[i].records@
        == q.feeds@[i].received@.flatten() by {
        lemma_unbounded_harvest_keeps_all(q.feeds@[i], q.filter, q.now);
    }
    assert(q.feeds@.map_values(|h: Harvest| h.records@) =~= q.feeds@.map_values(
        |h: Harvest| h.received@.flatten(),
    ));
}

/// The requests in flight are bounded by the permits: never more parents
/// await an answer than there are permits.
pub proof fn lemma_in_flight_within_capacity(q: JobQuery)
    requires
        q.wf(),
    ensures
        waiting_count(q.feeds@) <= q.gate.capacity,
{
}

/// A query with a permit free, nothing in flight and no page to request
/// has ended: each harvest is done or the query has failed.  So a driver
/// that stops when nothing is in flight and nothing is handed out stops
/// only at the end.
pub proof fn lemma_idle_query_is_settled(q: JobQuery)
    requires
        q.wf(),
        q.gate.in_use == 0,
        q.gate.capacity >= 1,
        forall|j: int| 0 <= j < q.feeds@.len() ==> !(#[trigger] q.feeds@[j]).wants_request(),
    ensures
        q.settled(),
{
    assert forall|j: int| 0 <= j < q.feeds@.len() implies (#[trigger] q.feeds@[j]).is_done() by {
        if q.feeds@[j].waiting {
            lemma_waiting_count_positive(q.feeds@, j);
        }
    }
}

/// A first page that cannot be had fails the whole query, whatever the
/// other parents' harvests hold: once that outcome is taken in, the query's
/// result is an error.
pub proof fn lemma_first_page_failure_is_fatal(before: JobQuery, parent: int, detail: String, after: JobQuery)
    requires
        before.wf(),
        0 <= parent < before.feeds@.len(),
        before.feeds@[parent].requested == 1,
        after.feeds@.len() == before.feeds@.len(),
        before.feeds@[parent].finished_with(
            PageOutcome::Failed { detail },
            before.filter,
            before.now,
            after.feeds@[parent],
        ),
    ensures
        after.failed(),
{
    assert(after.feeds@[parent].failure is Some);
}

} // verus!
