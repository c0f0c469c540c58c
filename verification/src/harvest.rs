//! The harvest: which detail fetch may start, and what becomes of each one
//! that ends. Fetching, waiting and sleeping are the caller's; every
//! decision is taken here. A fetch holds one permit of a bounded pool from
//! its start; a failed fetch gives it back at once, a successful one after
//! the settling delay.

use crate::detail::{detail_of, scrape_devil_detail};
use crate::listing::{listing, scrape_devils};
use crate::models::{detail_views, devil_views, Devil, DevilDetail, DevilDetailView};
use vstd::prelude::*;

verus! {

/// The policy of a harvest: how many fetches may run at once, and how long
/// a fetch that succeeded keeps its permit.
#[derive(Debug, Clone, Copy, PartialEq, Eq)]
pub struct DevilScraper {
    pub workers: usize,
    pub settling_delay_ms: u64,
}

/// What the caller of a harvest does next.
#[derive(Debug, Clone, Copy, PartialEq, Eq)]
pub enum Step {
    /// Take a permit and start the next fetch.
    Launch,
    /// Nothing can start: wait for a fetch to end or a permit to return.
    Wait,
    /// Every stub was fetched and every permit is back.
    Finished,
}

/// A harvest under way.
pub struct Harvest {
    stubs: Vec<Devil>,
    capacity: usize,
    launched: usize,
    fetching: usize,
    settling: usize,
    failed: usize,
    results: Vec<DevilDetail>,
    history: Ghost<Seq<Option<DevilDetailView>>>,
}

/// What a harvest came to: the records gathered, and how the fetches went.
#[derive(Debug, Clone, PartialEq, Eq)]
pub struct Harvested {
    /// The records, in the order in which they came.
    pub details: Vec<DevilDetail>,
    /// The number of fetches started.
    pub started: usize,
    /// The number of fetches that failed.
    pub failed: usize,
    /// The most fetches that ran at one time.
    pub most_at_once: usize,
}

/// How the fetch of stub `i` ends where `pages` holds what each fetch
/// gave: with the record of the page, or without one where the fetch
/// failed or `pages` holds nothing for the stub.
pub open spec fn page_outcome(pages: Seq<Option<String>>, i: int) -> Option<DevilDetailView> {
    if 0 <= i < pages.len() {
        match pages[i] {
            Some(markup) => Some(detail_of(markup@)),
            None => None,
        }
    } else {
        None
    }
}

/// How the fetches of the first `n` stubs end, in the order of the stubs.
pub open spec fn page_outcomes(pages: Seq<Option<String>>, n: nat) -> Seq<Option<DevilDetailView>> {
    Seq::new(n, |i: int| page_outcome(pages, i))
}

/// The smaller of two numbers.
pub open spec fn least(a: int, b: int) -> int {
    if a <= b {
        a
    } else {
        b
    }
}

/// The record that an outcome holds, as its value.
pub open spec fn outcome_view(outcome: Option<DevilDetail>) -> Option<DevilDetailView> {
    match outcome {
        Some(d) => Some(d@),
        None => None,
    }
}

impl DevilScraper {
    /// The policy in use: five workers, three seconds of settling.
    pub fn new() -> (s: DevilScraper)
        ensures
            s.workers == 5,
            s.settling_delay_ms == 3000,
    {
        DevilScraper { workers: 5, settling_delay_ms: 3000 }
    }

    /// The stubs that the listing page gives.
    pub fn stubs(&self, listing_markup: &str) -> (devils: Vec<Devil>)
        ensures
            devil_views(devils@) == listing(listing_markup@),
    {
        scrape_devils(listing_markup)
    }

    /// The record that a devil's own page gives.
    pub fn detail(&self, page_markup: &str) -> (detail: DevilDetail)
        ensures
            detail@ == detail_of(page_markup@),
    {
        scrape_devil_detail(page_markup)
    }

    /// A harvest of `stubs` with nothing started yet.
    pub fn begin(&self, stubs: Vec<Devil>) -> (h: Harvest)
        requires
            self.workers > 0,
        ensures
            h.wf(),
            h.stubs() == stubs@,
            h.capacity() == self.workers,
            h.launched() == 0,
            h.fetching() == 0,
            h.settling() == 0,
            h.failed() == 0,
            h.results() == Seq::<DevilDetailView>::empty(),
            h.outcomes() == Seq::<Option<DevilDetailView>>::empty(),
    {
        let h = Harvest {
            stubs,
            capacity: self.workers,
            launched: 0,
            fetching: 0,
            settling: 0,
            failed: 0,
            results: Vec::new(),
            history: Ghost(Seq::empty()),
        };
        proof {
            assert(h.results() =~= Seq::<DevilDetailView>::empty());
        }
        h
    }

    /// The harvest of `stubs` where the pages are at hand: `pages` holds,
    /// stub by stub, what the fetch gave, and nothing where it failed. Every
    /// fetch takes its permit, the fetches end in the order in which they
    /// started, and no more of them run at one time than there are workers.
    pub fn scrape(&self, stubs: Vec<Devil>, pages: &Vec<Option<String>>) -> (r: Harvested)
        requires
            self.workers > 0,
        ensures
            r.started == stubs@.len(),
            detail_views(r.details@) == gathered_from(page_outcomes(pages@, stubs@.len())),
            r.details@.len() == r.started - r.failed,
            r.most_at_once == least(stubs@.len() as int, self.workers as int),
    {
        let ghost total = stubs@.len();
        let mut harvest = self.begin(stubs);
        let mut most: usize = 0;
        proof {
            assert(harvest.outcomes() =~= page_outcomes(pages@, 0));
        }
        loop
            invariant
                harvest.wf(),
                harvest.stubs().len() == total,
                harvest.capacity() == self.workers,
                harvest.outcomes() == page_outcomes(pages@, harvest.outcomes().len()),
                most == least(harvest.launched() as int, self.workers as int),
                harvest.outcomes().len() == 0 ==> harvest.fetching() == harvest.launched(),
                harvest.outcomes().len() > 0 ==> harvest.launched() >= least(
                    total as int,
                    self.workers as int,
                ),
            ensures
                harvest.step() == Step::Finished,
            decreases
                3 * (total - harvest.launched()) + 2 * harvest.fetching() + harvest.settling(),
        {
            match harvest.next_step() {
                Step::Launch => {
                    harvest.launch();
                    if harvest.running() > most {
                        most = harvest.running();
                    }
                },
                Step::Wait => {
                    if harvest.running() > 0 {
                        let index: usize = harvest.started() - harvest.running();
                        let outcome = if index < pages.len() {
                            match &pages[index] {
                                Some(markup) => Some(scrape_devil_detail(markup.as_str())),
                                None => None,
                            }
                        } else {
                            None
                        };
                        let ghost earlier = harvest.outcomes();
                        harvest.fetched(outcome);
                        proof {
                            assert(outcome_view(outcome) == page_outcome(pages@, index as int));
                            assert(harvest.outcomes() =~= page_outcomes(
                                pages@,
                                harvest.outcomes().len(),
                            ));
                        }
                    } else {
                        harvest.settled();
                    }
                },
                Step::Finished => {
                    break ;
                },
            }
        }
        proof {
            lemma_finished_harvest(harvest);
        }
        let started: usize = harvest.started();
        let failed: usize = harvest.failures();
        let details = harvest.into_results();
        Harvested { details, started, failed, most_at_once: most }
    }
}

impl Harvest {
    /// The stubs to fetch, in the order in which they start.
    pub closed spec fn stubs(&self) -> Seq<Devil> {
        self.stubs@
    }

    /// The number of permits in the pool.
    pub closed spec fn capacity(&self) -> nat {
        self.capacity as nat
    }

    /// The number of fetches started so far.
    pub closed spec fn launched(&self) -> nat {
        self.launched as nat
    }

    /// The number of fetches that run now.
    pub closed spec fn fetching(&self) -> nat {
        self.fetching as nat
    }

    /// The number of fetches that succeeded and still hold their permit.
    pub closed spec fn settling(&self) -> nat {
        self.settling as nat
    }

    /// The number of fetches that failed.
    pub closed spec fn failed(&self) -> nat {
        self.failed as nat
    }

    /// The records gathered so far, in the order in which they came.
    pub closed spec fn results(&self) -> Seq<DevilDetailView> {
        detail_views(self.results@)
    }

    /// How the fetches that have ended so far ended, in the order in which
    /// they ended.
    pub closed spec fn outcomes(&self) -> Seq<Option<DevilDetailView>> {
        self.history@
    }

    /// The number of permits taken.
    pub open spec fn in_flight(&self) -> nat {
        self.fetching() + self.settling()
    }

    /// What holds of a harvest at every moment: no more permits are taken
    /// than the pool has, and every fetch started runs, has failed or has
    /// given its record.
    pub open spec fn wf(&self) -> bool {
        &&& self.capacity() > 0
        &&& self.launched() <= self.stubs().len()
        &&& self.in_flight() <= self.capacity()
        &&& self.launched() == self.fetching() + self.failed() + self.results().len()
        &&& self.settling() <= self.results().len()
        &&& self.results() == gathered_from(self.outcomes())
        &&& self.outcomes().len() == self.failed() + self.results().len()
    }

    /// What the caller does next in this state.
    pub open spec fn step(&self) -> Step {
        if self.launched() < self.stubs().len() && self.in_flight() < self.capacity() {
            Step::Launch
        } else if self.in_flight() > 0 {
            Step::Wait
        } else {
            Step::Finished
        }
    }

    /// What the caller does next.
    pub fn next_step(&self) -> (s: Step)
        requires
            self.wf(),
        ensures
            s == self.step(),
    {
        if self.launched < self.stubs.len() && self.fetching + self.settling < self.capacity {
            Step::Launch
        } else if self.fetching + self.settling > 0 {
            Step::Wait
        } else {
            Step::Finished
        }
    }

    /// Takes a permit for the next stub and gives the address to fetch.
    pub fn launch(&mut self) -> (url: String)
        requires
            old(self).wf(),
            old(self).step() == Step::Launch,
        ensures
            final(self).wf(),
            url@ == old(self).stubs()[old(self).launched() as int].wiki_url@,
            final(self).stubs() == old(self).stubs(),
            final(self).capacity() == old(self).capacity(),
            final(self).launched() == old(self).launched() + 1,
            final(self).fetching() == old(self).fetching() + 1,
            final(self).settling() == old(self).settling(),
            final(self).failed() == old(self).failed(),
            final(self).results() == old(self).results(),
            final(self).outcomes() == old(self).outcomes(),
    {
        let total: usize = self.stubs.len();
        assert(self.launched < total);
        let url = self.stubs[self.launched].wiki_url.clone();
        self.launched = self.launched + 1;
        self.fetching = self.fetching + 1;
        url
    }

    /// Records how a running fetch ended. A record is added to the results
    /// and its permit stays taken until `settled`; a failure adds nothing
    /// and gives the permit back.
    pub fn fetched(&mut self, outcome: Option<DevilDetail>)
        requires
            old(self).wf(),
            old(self).fetching() > 0,
        ensures
            final(self).wf(),
            final(self).stubs() == old(self).stubs(),
            final(self).capacity() == old(self).capacity(),
            final(self).launched() == old(self).launched(),
            final(self).fetching() == old(self).fetching() - 1,
            final(self).outcomes() == old(self).outcomes().push(outcome_view(outcome)),
            match outcome {
                Some(d) => {
                    &&& final(self).results() == old(self).results().push(d@)
                    &&& final(self).settling() == old(self).settling() + 1
                    &&& final(self).failed() == old(self).failed()
                },
                None => {
                    &&& final(self).results() == old(self).results()
                    &&& final(self).settling() == old(self).settling()
                    &&& final(self).failed() == old(self).failed() + 1
                },
            },
    {
        let ghost earlier = self.history@;
        proof {
            lemma_gathered_step(earlier, outcome_view(outcome));
        }
        self.history = Ghost(earlier.push(outcome_view(outcome)));
        self.fetching = self.fetching - 1;
        match outcome {
            Some(d) => {
                let ghost before = detail_views(self.results@);
                self.results.push(d);
                self.settling = self.settling + 1;
                proof {
                    assert(detail_views(self.results@) =~= before.push(d@));
                }
            },
            None => {
                self.failed = self.failed + 1;
            },
        }
    }

    /// Gives back the permit of a fetch whose settling delay is over.
    pub fn settled(&mut self)
        requires
            old(self).wf(),
            old(self).settling() > 0,
        ensures
            final(self).wf(),
            final(self).stubs() == old(self).stubs(),
            final(self).capacity() == old(self).capacity(),
            final(self).launched() == old(self).launched(),
            final(self).fetching() == old(self).fetching(),
            final(self).settling() == old(self).settling() - 1,
            final(self).failed() == old(self).failed(),
            final(self).results() == old(self).results(),
            final(self).outcomes() == old(self).outcomes(),
    {
        self.settling = self.settling - 1;
    }

    /// The number of fetches that run now.
    pub fn running(&self) -> (n: usize)
        ensures
            n == self.fetching(),
    {
        self.fetching
    }

    /// The number of fetches that succeeded and still hold their permit.
    pub fn holding(&self) -> (n: usize)
        ensures
            n == self.settling(),
    {
        self.settling
    }

    /// The number of fetches that failed.
    pub fn failures(&self) -> (n: usize)
        ensures
            n == self.failed(),
    {
        self.failed
    }

    /// The number of fetches started so far.
    pub fn started(&self) -> (n: usize)
        ensures
            n == self.launched(),
    {
        self.launched
    }

    /// The records gathered, in the order in which they came.
    pub fn into_results(self) -> (results: Vec<DevilDetail>)
        ensures
            detail_views(results@) == self.results(),
            results@.len() == self.results().len(),
    {
        proof {
            assert(detail_views(self.results@).len() == self.results@.len());
        }
        self.results
    }
}

/// At no moment do more fetches run than the pool has permits.
pub proof fn lemma_fetches_bounded(h: Harvest)
    requires
        h.wf(),
    ensures
        h.fetching() <= h.in_flight() <= h.capacity(),
{
}

/// A harvest that waits has something to wait for: a fetch that runs, or a
/// permit that is still held.
pub proof fn lemma_waiting_harvest(h: Harvest)
    requires
        h.wf(),
        h.step() == Step::Wait,
    ensures
        h.fetching() > 0 || h.settling() > 0,
        h.launched() == h.stubs().len() || h.in_flight() == h.capacity(),
{
}

/// A finished harvest has started every stub and seen every fetch end,
/// and holds one record for each stub but those whose fetch failed.
pub proof fn lemma_finished_harvest(h: Harvest)
    requires
        h.wf(),
        h.step() == Step::Finished,
    ensures
        h.launched() == h.stubs().len(),
        h.fetching() == 0,
        h.outcomes().len() == h.stubs().len(),
        h.results() == gathered_from(h.outcomes()),
        h.results().len() == h.stubs().len() - h.failed(),
{
}

/// A harvest without stubs is finished from the start: nothing was started
/// and nothing was gathered.
pub proof fn lemma_empty_harvest(h: Harvest)
    requires
        h.wf(),
        h.stubs().len() == 0,
    ensures
        h.step() == Step::Finished,
        h.launched() == 0,
        h.results() == Seq::<DevilDetailView>::empty(),
{
    assert(h.results() =~= Seq::<DevilDetailView>::empty());
}

/// The records that a run of outcomes leaves, in the order in which the
/// outcomes came: a fetch that failed leaves none.
pub open spec fn gathered_from(outcomes: Seq<Option<DevilDetailView>>) -> Seq<DevilDetailView>
    decreases outcomes.len(),
{
    if outcomes.len() == 0 {
        Seq::empty()
    } else {
        let rest = gathered_from(outcomes.drop_last());
        match outcomes.last() {
            Some(d) => rest.push(d),
            None => rest,
        }
    }
}

/// A record is gathered as often as a fetch gave it.
pub proof fn lemma_gathered_count(outcomes: Seq<Option<DevilDetailView>>, d: DevilDetailView)
    ensures
        gathered_from(outcomes).to_multiset().count(d) == outcomes.to_multiset().count(Some(d)),
    decreases outcomes.len(),
{
    broadcast use vstd::seq_lib::group_to_multiset_ensures;

    if outcomes.len() == 0 {
        assert(gathered_from(outcomes).to_multiset().count(d) == 0) by {
            if gathered_from(outcomes).to_multiset().count(d) > 0 {
                assert(gathered_from(outcomes).contains(d));
            }
        }
        assert(outcomes.to_multiset().count(Some(d)) == 0) by {
            if outcomes.to_multiset().count(Some(d)) > 0 {
                assert(outcomes.contains(Some(d)));
            }
        }
    } else {
        let rest = outcomes.drop_last();
        lemma_gathered_count(rest, d);
        assert(outcomes =~= rest.push(outcomes.last()));
        assert(outcomes.to_multiset() =~= rest.to_multiset().insert(outcomes.last()));
    }
}

/// Two runs in which the same fetches succeeded with the same records and
/// the same number failed gather the same records, whatever the order in
/// which the fetches ended.
pub proof fn lemma_gathered_order_free(
    first: Seq<Option<DevilDetailView>>,
    second: Seq<Option<DevilDetailView>>,
)
    requires
        first.to_multiset() == second.to_multiset(),
    ensures
        gathered_from(first).to_multiset() == gathered_from(second).to_multiset(),
{
    assert forall|d: DevilDetailView|
        gathered_from(first).to_multiset().count(d) == gathered_from(second).to_multiset().count(
            d,
        ) by {
        lemma_gathered_count(first, d);
        lemma_gathered_count(second, d);
    }
    assert(gathered_from(first).to_multiset() =~= gathered_from(second).to_multiset());
}

/// Two harvests whose fetches ended alike, in whatever order, hold the
/// same records, each as often as the other.
pub proof fn lemma_harvests_agree(first: Harvest, second: Harvest)
    requires
        first.wf(),
        second.wf(),
        first.outcomes().to_multiset() == second.outcomes().to_multiset(),
    ensures
        first.results().to_multiset() == second.results().to_multiset(),
{
    lemma_gathered_order_free(first.outcomes(), second.outcomes());
}

/// A harvest whose fetches ended as the pages say, in whatever order, holds
/// the records that the harvest of the pages at hand gives, each as often.
pub proof fn lemma_harvest_of_pages(h: Harvest, pages: Seq<Option<String>>)
    requires
        h.wf(),
        h.outcomes().to_multiset() == page_outcomes(pages, h.stubs().len()).to_multiset(),
    ensures
        h.results().to_multiset() == gathered_from(
            page_outcomes(pages, h.stubs().len()),
        ).to_multiset(),
{
    lemma_gathered_order_free(h.outcomes(), page_outcomes(pages, h.stubs().len()));
}

/// What a harvest holds after one more fetch has ended is what the
/// outcomes so far leave.
pub proof fn lemma_gathered_step(
    outcomes: Seq<Option<DevilDetailView>>,
    outcome: Option<DevilDetailView>,
)
    ensures
        gathered_from(outcomes.push(outcome)) == match outcome {
            Some(d) => gathered_from(outcomes).push(d),
            None => gathered_from(outcomes),
        },
{
    assert(outcomes.push(outcome).drop_last() =~= outcomes);
}

} // verus!
