//! Harvesting every page of one parent resource's job feed.
//!
//! Pages are requested one after another.  The first page tells how many
//! pages the feed holds; the age cutoff is the last page still allowed to be
//! requested.  It starts at the page count and only comes down: a page that
//! holds a record older than the bound brings it down to that page's own
//! index, so no later page is requested.
use vstd::prelude::*;
use crate::filter::FetchFilter;
use crate::header::{announced_pages, total_pages_from_header};
use crate::model::Job;

verus! {

/// What became of one page request.
#[derive(Debug)]
pub enum PageOutcome {
    /// The page arrived and held `jobs`; `total_pages` is the value of the
    /// page-count header, if the response carried one.
    Fetched { jobs: Vec<Job>, total_pages: Option<Vec<u8>> },
    /// The request failed, or its body was not a list of jobs.
    Failed { detail: String },
}

/// The bytes of a page-count header, as a sequence.
pub open spec fn header_view(h: Option<Vec<u8>>) -> Option<Seq<u8>> {
    match h {
        Some(v) => Some(v@),
        None => None,
    }
}

/// The harvest of one paged feed.
pub struct Harvest {
    /// Pages the feed announced with its first page (zero before that).
    pub total_pages: usize,
    /// The last page still allowed to be requested.
    pub cutoff: usize,
    /// Pages requested so far: pages `1..=requested`.
    pub requested: usize,
    /// A request is outstanding (for page `requested`).
    pub waiting: bool,
    /// Why the first page could not be had.
    pub failure: Option<String>,
    /// The records kept so far, in page order.
    pub records: Vec<Job>,
    /// The records each answered page held, in page order; a page that
    /// could not be had counts as empty.
    pub received: Ghost<Seq<Seq<Job>>>,
}

impl Harvest {
    /// The records that the filter keeps of each answered page.
    pub open spec fn kept_pages(self, f: FetchFilter, now: i64) -> Seq<Seq<Job>> {
        self.received@.map_values(|p: Seq<Job>| f.kept(p, now))
    }

    /// Some answered page held a record older than the bound.
    pub open spec fn saw_stale(self, f: FetchFilter, now: i64) -> bool {
        exists|i: int| 0 <= i < self.received@.len() && f.any_stale(#[trigger] self.received@[i], now)
    }

    /// The first page has been answered with records.
    pub open spec fn started(self) -> bool {
        self.received@.len() >= 1
    }

    /// The harvest's invariant under filter `f` at time `now`: the kept
    /// records are those the filter keeps of every answered page; the
    /// requests made match the pages answered; the cutoff lies within the
    /// page count, below it only after a stale page, and at or below every
    /// stale page's index; no page beyond the cutoff was requested.
    pub open spec fn wf(self, f: FetchFilter, now: i64) -> bool {
        &&& self.records@ == self.kept_pages(f, now).flatten()
        &&& forall|k: int| 0 <= k < self.records@.len() ==> f.accepts(#[trigger] self.records@[k], now)
        &&& self.failure is Some ==> (self.requested == 1 && !self.waiting && self.received@.len() == 0)
        &&& self.failure is None ==> self.received@.len() + (if self.waiting { 1int } else { 0int })
            == self.requested
        &&& !self.started() ==> self.total_pages == 0 && self.cutoff == 0 && self.requested <= 1
        &&& self.started() ==> self.cutoff <= self.total_pages
        &&& self.started() ==> (self.requested <= self.total_pages || self.requested == 1)
        &&& self.started() ==> (self.requested <= self.cutoff || self.requested == 1)
        &&& self.cutoff < self.total_pages ==> self.saw_stale(f, now)
        &&& forall|i: int|
            0 <= i < self.received@.len() && f.any_stale(#[trigger] self.received@[i], now)
                ==> self.cutoff <= i + 1
    }

    /// Another page is to be requested.
    pub open spec fn wants_request(self) -> bool {
        &&& self.failure is None
        &&& !self.waiting
        &&& self.requested == 0 || (self.requested < self.total_pages && self.requested
            < self.cutoff)
    }

    /// Nothing more is to be requested or awaited.
    pub open spec fn is_done(self) -> bool {
        self.failure is Some || (!self.waiting && self.requested >= 1 && !self.wants_request())
    }

    /// A harvest that has requested nothing yet.
    pub fn new() -> (h: Harvest)
        ensures
            forall|f: FetchFilter, now: i64| h.wf(f, now),
            h.requested == 0,
            !h.waiting,
            h.failure is None,
            h.received@.len() == 0,
            h.wants_request(),
    {
        let h = Harvest {
            total_pages: 0,
            cutoff: 0,
            requested: 0,
            waiting: false,
            failure: None,
            records: Vec::new(),
            received: Ghost(Seq::empty()),
        };
        proof {
            assert forall|f: FetchFilter, now: i64| h.wf(f, now) by {
                assert(h.kept_pages(f, now) =~= Seq::<Seq<Job>>::empty());
            }
        }
        h
    }

    /// Whether another page is to be requested.
    pub fn has_request(&self) -> (r: bool)
        ensures
            r == self.wants_request(),
    {
        self.failure.is_none() && !self.waiting && (self.requested == 0 || (self.requested
            < self.total_pages && self.requested < self.cutoff))
    }

    /// Whether nothing more is to be requested or awaited.
    pub fn done(&self) -> (r: bool)
        ensures
            r == self.is_done(),
    {
        self.failure.is_some() || (!self.waiting && self.requested >= 1 && !self.has_request())
    }

    /// `next` is this harvest after its outstanding request ended in
    /// `outcome`.
    pub open spec fn finished_with(self, outcome: PageOutcome, f: FetchFilter, now: i64, next: Harvest) -> bool {
        match outcome {
            PageOutcome::Failed { detail } => if self.requested == 1 {
                &&& next.failure == Some(detail)
                &&& next.received == self.received
                &&& next.total_pages == self.total_pages
                &&& next.cutoff == self.cutoff
            } else {
                &&& next.failure is None
                &&& next.received@ == self.received@.push(Seq::empty())
                &&& next.records == self.records
                &&& next.total_pages == self.total_pages
                &&& next.cutoff == self.cutoff
            },
            PageOutcome::Fetched { jobs, total_pages } => {
                &&& next.failure is None
                &&& next.received@ == self.received@.push(jobs@)
                &&& next.records@ == self.records@ + f.kept(jobs@, now)
                &&& self.requested == 1 ==> next.total_pages as nat
                    == announced_pages(header_view(total_pages))
                &&& self.requested > 1 ==> next.total_pages
                    == self.total_pages
                &&& next.cutoff == if f.any_stale(jobs@, now) {
                    if self.requested < next.total_pages {
                        self.requested
                    } else {
                        next.total_pages
                    }
                } else if self.requested == 1 {
                    next.total_pages
                } else {
                    self.cutoff
                }
            },
        }
    }

    /// Marks the next page as requested and returns its index.
    pub fn start(&mut self) -> (page: usize)
        requires
            old(self).wants_request(),
            exists|f: FetchFilter, now: i64| old(self).wf(f, now),
        ensures
            forall|f: FetchFilter, now: i64| old(self).wf(f, now) ==> final(self).wf(f, now),
            page == old(self).requested + 1,
            final(self).requested == page,
            final(self).waiting,
            final(self).total_pages == old(self).total_pages,
            final(self).cutoff == old(self).cutoff,
            final(self).failure == old(self).failure,
            final(self).records == old(self).records,
            final(self).received == old(self).received,
    {
        self.requested = self.requested + 1;
        self.waiting = true;
        self.requested
    }

    /// Takes in the outcome of the outstanding request.
    ///
    /// The first page's failure is the harvest's failure; a later page's
    /// failure counts as an empty page.  An answered page adds the records
    /// the filter keeps; the first one sets the page count, and a page with a
    /// record older than the bound brings the cutoff down to its own index.
    pub fn finish(&mut self, outcome: PageOutcome, f: &FetchFilter, now: i64)
        requires
            old(self).wf(*f, now),
            old(self).waiting,
            old(self).failure is None,
        ensures
            final(self).wf(*f, now),
            !final(self).waiting,
            final(self).requested == old(self).requested,
            old(self).finished_with(outcome, *f, now, *final(self)),
    {
        let page = self.requested;
        self.waiting = false;
        match outcome {
            PageOutcome::Failed { detail } => {
                if page == 1 {
                    self.failure = Some(detail);
                } else {
                    proof {
                        let old_pages = self.received@;
                        self.received@ = old_pages.push(Seq::empty());
                        assert(self.kept_pages(*f, now) =~= old(self).kept_pages(*f, now).push(
                            f.kept(Seq::empty(), now),
                        ));
                        assert(f.kept(Seq::<Job>::empty(), now) =~= Seq::<Job>::empty());
                        old(self).kept_pages(*f, now).lemma_flatten_push(Seq::empty());
                        assert forall|i: int|
                            0 <= i < self.received@.len() && f.any_stale(
                                #[trigger] self.received@[i],
                                now,
                            ) implies self.cutoff <= i + 1 by {
                            if i < old_pages.len() {
                                assert(self.received@[i] == old_pages[i]);
                            } else {
                                assert(self.received@[i] =~= Seq::<Job>::empty());
                            }
                        }
                        if self.cutoff < self.total_pages {
                            let w = choose|i: int|
                                0 <= i < old_pages.len() && f.any_stale(
                                    #[trigger] old_pages[i],
                                    now,
                                );
                            assert(self.received@[w] == old_pages[w]);
                        }
                    }
                }
            },
            PageOutcome::Fetched { jobs, total_pages } => {
                let ghost raw = jobs@;
                if page == 1 {
                    let announced = match &total_pages {
                        Some(v) => total_pages_from_header(Some(v.as_slice())),
                        None => total_pages_from_header(None),
                    };
                    self.total_pages = announced;
                    self.cutoff = announced;
                }
                let (mut kept, stale) = f.sift(jobs, now);
                if stale && page < self.cutoff {
                    self.cutoff = page;
                }
                if stale && page >= self.total_pages {
                    self.cutoff = self.total_pages;
                }
                self.records.append(&mut kept);
                proof {
                    let old_pages = old(self).received@;
                    self.received@ = old_pages.push(raw);
                    assert(self.kept_pages(*f, now) =~= old(self).kept_pages(*f, now).push(
                        f.kept(raw, now),
                    ));
                    old(self).kept_pages(*f, now).lemma_flatten_push(f.kept(raw, now));
                    let ks = f.kept(raw, now);
                    let n0 = old(self).records@.len();
                    assert forall|k: int| 0 <= k < self.records@.len() implies f.accepts(
                        #[trigger] self.records@[k],
                        now,
                    ) by {
                        if k >= n0 {
                            raw.lemma_filter_pred(|j: Job| f.accepts(j, now), k - n0);
                            assert(self.records@[k] == ks[k - n0]);
                        } else {
                            assert(self.records@[k] == old(self).records@[k]);
                        }
                    }
                    assert(self.received@[old_pages.len() as int] == raw);
                    assert forall|i: int|
                        0 <= i < self.received@.len() && f.any_stale(
                            #[trigger] self.received@[i],
                            now,
                        ) implies self.cutoff <= i + 1 by {
                        if i < old_pages.len() {
                            assert(self.received@[i] == old_pages[i]);
                        }
                    }
                    if self.cutoff < self.total_pages {
                        if !stale {
                            let w = choose|i: int|
                                0 <= i < old_pages.len() && f.any_stale(
                                    #[trigger] old_pages[i],
                                    now,
                                );
                            assert(self.received@[w] == old_pages[w]);
                        }
                    }
                }
            },
        }
    }
}

/// A page whose every record passes the filter is kept whole.
pub proof fn lemma_kept_whole(f: FetchFilter, page: Seq<Job>, now: i64)
    requires
        forall|k: int| 0 <= k < page.len() ==> f.accepts(#[trigger] page[k], now),
    ensures
        f.kept(page, now) == page,
    decreases page.len(),
{
    if page.len() > 0 {
        let init = page.drop_last();
        assert forall|k: int| 0 <= k < init.len() implies f.accepts(#[trigger] init[k], now) by {
            assert(init[k] == page[k]);
        }
        lemma_kept_whole(f, init, now);
        init.lemma_filter_push(page.last(), |j: Job| f.accepts(j, now));
        assert(init.push(page.last()) =~= page);
    } else {
        assert(f.kept(page, now) =~= page);
    }
}

/// With no name, status or age bound, a harvest keeps exactly the records
/// of every page it received, the cutoff stays at the announced page
/// count, and a finished harvest has received every page.
pub proof fn lemma_unbounded_harvest_keeps_all(h: Harvest, f: FetchFilter, now: i64)
    requires
        h.wf(f, now),
        f.keeps_all(),
    ensures
        h.records@ == h.received@.flatten(),
        h.cutoff == h.total_pages,
        h.is_done() && h.failure is None ==> h.received@.len() == if h.total_pages == 0 {
            1
        } else {
            h.total_pages as int
        },
{
    assert forall|i: int| 0 <= i < h.received@.len() implies #[trigger] h.kept_pages(f, now)[i]
        == h.received@[i] by {
        lemma_kept_whole(f, h.received@[i], now);
    }
    assert(h.kept_pages(f, now) =~= h.received@);
    if h.saw_stale(f, now) {
        let w = choose|i: int| 0 <= i < h.received@.len() && f.any_stale(#[trigger] h.received@[i], now);
        let k = choose|i: int| 0 <= i < h.received@[w].len() && f.is_stale(#[trigger] h.received@[w][i], now);
    }
}

/// A page after the first that cannot be had counts as an empty page: the
/// harvest does not fail, keeps the records it had, and goes on with the
/// same page count and cutoff.
pub proof fn lemma_failed_later_page_is_empty(
    before: Harvest,
    detail: String,
    f: FetchFilter,
    now: i64,
    after: Harvest,
)
    requires
        before.wf(f, now),
        before.requested > 1,
        before.finished_with(PageOutcome::Failed { detail }, f, now, after),
    ensures
        after.failure is None,
        after.records == before.records,
        after.received@ == before.received@.push(Seq::empty()),
        after.cutoff == before.cutoff,
        after.total_pages == before.total_pages,
{
}

/// The cutoff never rises once the first page has set it.
pub proof fn lemma_cutoff_never_rises(
    before: Harvest,
    outcome: PageOutcome,
    f: FetchFilter,
    now: i64,
    after: Harvest,
)
    requires
        before.wf(f, now),
        before.requested > 1,
        before.finished_with(outcome, f, now, after),
    ensures
        after.cutoff <= before.cutoff,
{
}

/// Once a page has shown a record older than the bound, no page after it is
/// requested: in particular a feed whose first page is stale costs exactly
/// one request.
pub proof fn lemma_stale_page_ends_feed(h: Harvest, f: FetchFilter, now: i64, i: int)
    requires
        h.wf(f, now),
        0 <= i < h.received@.len(),
        f.any_stale(h.received@[i], now),
    ensures
        h.requested <= i + 1 || h.requested == 1,
        !h.wants_request(),
        i == 0 ==> h.requested == 1,
{
}

} // verus!
