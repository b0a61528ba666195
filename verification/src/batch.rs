//! Fetching many images: each of them once, and a few at a time.
//!
//! A [`Batch`] holds one job for each distinct image of a card list. The
//! caller asks it what to do ([`Batch::poll`]), runs the fetches it hands out
//! side by side, and reports each result ([`Batch::complete`]). The batch never
//! has more fetches under way than its limit, hands out no new job once one
//! has failed, and ends only when every fetch it handed out has reported.

use vstd::prelude::*;
use crate::deck::Card;
use crate::fetch::FetchError;
use crate::fetch::FetchResult;

verus! {

/// Whether one of `cards` has the image identifier `id`.
pub open spec fn has_id(cards: Seq<Card>, id: Seq<char>) -> bool {
    exists|i: int| 0 <= i < cards.len() && (#[trigger] cards[i]).scryfall_id@ == id
}

/// Whether no two of `cards` share an image identifier.
pub open spec fn unique_ids(cards: Seq<Card>) -> bool {
    forall|i: int, j: int|
        0 <= i < j < cards.len() ==> (#[trigger] cards[i]).scryfall_id@ != (
        #[trigger] cards[j]).scryfall_id@
}

/// `cards` without the repeats: a card stays where no earlier card has its
/// image identifier.
pub open spec fn distinct(cards: Seq<Card>) -> Seq<Card>
    decreases cards.len(),
{
    if cards.len() == 0 {
        Seq::empty()
    } else if has_id(cards.drop_last(), cards.last().scryfall_id@) {
        distinct(cards.drop_last())
    } else {
        distinct(cards.drop_last()).push(cards.last())
    }
}

/// Dropping the repeats loses no image, adds none, and leaves no image twice.
pub proof fn lemma_distinct(cards: Seq<Card>)
    ensures
        unique_ids(distinct(cards)),
        distinct(cards).len() <= cards.len(),
        forall|id: Seq<char>| has_id(distinct(cards), id) <==> has_id(cards, id),
    decreases cards.len(),
{
    if cards.len() > 0 {
        let before = cards.drop_last();
        let last = cards.last();
        lemma_distinct(before);
        let kept = distinct(before);
        let all = distinct(cards);
        assert forall|id: Seq<char>| has_id(all, id) <==> has_id(cards, id) by {
            if has_id(cards, id) {
                let i = choose|i: int| 0 <= i < cards.len() && (#[trigger] cards[i]).scryfall_id@ == id;
                if i < before.len() {
                    assert(before[i].scryfall_id@ == id);
                    assert(has_id(before, id));
                    assert(has_id(kept, id));
                    let k = choose|k: int| 0 <= k < kept.len() && (#[trigger] kept[k]).scryfall_id@ == id;
                    assert(all[k].scryfall_id@ == id);
                } else if has_id(before, last.scryfall_id@) {
                    assert(has_id(kept, id));
                } else {
                    assert(all[all.len() - 1].scryfall_id@ == id);
                }
            }
            if has_id(all, id) {
                let k = choose|k: int| 0 <= k < all.len() && (#[trigger] all[k]).scryfall_id@ == id;
                if k < kept.len() {
                    assert(kept[k].scryfall_id@ == id);
                    assert(has_id(before, id));
                    let i = choose|i: int| 0 <= i < before.len() && (#[trigger] before[i]).scryfall_id@ == id;
                    assert(cards[i].scryfall_id@ == id);
                } else {
                    assert(cards[cards.len() - 1].scryfall_id@ == id);
                }
            }
        }
        assert forall|i: int, j: int| 0 <= i < j < all.len() implies (#[trigger] all[i]).scryfall_id@
            != (#[trigger] all[j]).scryfall_id@ by {
            if j < kept.len() {
                assert(all[i] == kept[i] && all[j] == kept[j]);
            } else {
                assert(kept[i].scryfall_id@ == all[i].scryfall_id@);
                assert(has_id(kept, all[i].scryfall_id@));
            }
        }
    }
}

/// A card list that repeats no image is left as it is.
pub proof fn lemma_distinct_of_unique(cards: Seq<Card>)
    requires
        unique_ids(cards),
    ensures
        distinct(cards) == cards,
    decreases cards.len(),
{
    if cards.len() > 0 {
        let before = cards.drop_last();
        assert(unique_ids(before)) by {
            assert forall|i: int, j: int| 0 <= i < j < before.len() implies (
            #[trigger] before[i]).scryfall_id@ != (#[trigger] before[j]).scryfall_id@ by {
                assert(before[i] == cards[i] && before[j] == cards[j]);
            }
        }
        lemma_distinct_of_unique(before);
        if has_id(before, cards.last().scryfall_id@) {
            let i = choose|i: int| 0 <= i < before.len() && (#[trigger] before[i]).scryfall_id@
                == cards.last().scryfall_id@;
            assert(cards[i] == before[i]);
            assert(cards[cards.len() - 1] == cards.last());
        }
        assert(before.push(cards.last()) =~= cards);
    } else {
        assert(cards =~= Seq::<Card>::empty());
    }
}

/// Whether card `i` is the first of `cards` with its image identifier.
pub open spec fn is_first(cards: Seq<Card>, i: int) -> bool {
    0 <= i < cards.len() && !has_id(cards.take(i), cards[i].scryfall_id@)
}

/// Dropping the repeats keeps, of every image, the card that has it first,
/// and keeps the cards in their order: the result names the places that the
/// kept cards have in `cards`, one after the other.
pub proof fn lemma_distinct_in_order(cards: Seq<Card>) -> (at: Seq<int>)
    ensures
        at.len() == distinct(cards).len(),
        forall|k: int|
            0 <= k < at.len() ==> is_first(cards, #[trigger] at[k]) && cards[at[k]] == distinct(
                cards,
            )[k],
        forall|k: int, l: int| 0 <= k < l < at.len() ==> #[trigger] at[k] < #[trigger] at[l],
    decreases cards.len(),
{
    if cards.len() == 0 {
        Seq::empty()
    } else {
        let before = cards.drop_last();
        let found = lemma_distinct_in_order(before);
        let n = cards.len() - 1;
        assert forall|k: int| 0 <= k < found.len() implies is_first(cards, #[trigger] found[k])
            && cards[found[k]] == distinct(before)[k] by {
            assert(is_first(before, found[k]));
            assert(cards.take(found[k]) =~= before.take(found[k]));
            assert(cards[found[k]] == before[found[k]]);
        }
        if has_id(before, cards.last().scryfall_id@) {
            found
        } else {
            let at = found.push(n);
            assert(cards.take(n) =~= before);
            assert forall|k: int, l: int| 0 <= k < l < at.len() implies #[trigger] at[k]
                < #[trigger] at[l] by {
                assert(is_first(before, found[k]));
            }
            at
        }
    }
}

/// Whether one of `cards` has the image identifier `id`.
pub fn contains_id(cards: &Vec<Card>, id: &String) -> (found: bool)
    ensures
        found == has_id(cards@, id@),
{
    let mut i: usize = 0;
    while i < cards.len()
        invariant
            0 <= i <= cards@.len(),
            forall|k: int| 0 <= k < i ==> (#[trigger] cards@[k]).scryfall_id@ != id@,
        decreases cards@.len() - i,
    {
        if cards[i].scryfall_id == *id {
            return true;
        }
        i = i + 1;
    }
    false
}

/// The cards to fetch for `cards`: one for each image, in the order in which
/// the images first appear.
pub fn distinct_cards(cards: &Vec<Card>) -> (jobs: Vec<Card>)
    ensures
        jobs@ == distinct(cards@),
        unique_ids(jobs@),
        forall|id: Seq<char>| has_id(jobs@, id) <==> has_id(cards@, id),
{
    let mut jobs: Vec<Card> = Vec::new();
    let mut i: usize = 0;
    assert(cards@.take(0) =~= Seq::<Card>::empty());
    while i < cards.len()
        invariant
            0 <= i <= cards@.len(),
            jobs@ == distinct(cards@.take(i as int)),
        decreases cards@.len() - i,
    {
        let seen = contains_id(&jobs, &cards[i].scryfall_id);
        proof {
            lemma_distinct(cards@.take(i as int));
            assert(cards@.take(i + 1).drop_last() =~= cards@.take(i as int));
            assert(cards@.take(i + 1).last() == cards@[i as int]);
        }
        if !seen {
            jobs.push(cards[i].clone());
        }
        i = i + 1;
    }
    proof {
        assert(cards@.take(i as int) =~= cards@);
        lemma_distinct(cards@);
    }
    jobs
}

/// Where `x` stands in `v`, if it does.
fn position_of(v: &Vec<usize>, x: usize) -> (at: Option<usize>)
    ensures
        match at {
            Some(p) => p < v@.len() && v@[p as int] == x,
            None => !v@.contains(x),
        },
{
    let mut p: usize = 0;
    while p < v.len()
        invariant
            0 <= p <= v@.len(),
            forall|k: int| 0 <= k < p ==> #[trigger] v@[k] != x,
        decreases v@.len() - p,
    {
        if v[p] == x {
            return Some(p);
        }
        p = p + 1;
    }
    None
}

/// One image and how its fetch ended.
#[derive(Debug)]
pub struct Fetched {
    pub asset_id: String,
    pub result: FetchResult,
}

/// The image whose fetch failed, and why.
#[derive(Debug)]
pub struct BatchFailure {
    pub asset_id: String,
    pub error: FetchError,
}

/// What the caller is to do next.
#[derive(Debug)]
pub enum BatchAction {
    /// Begin the fetch of `card`, and report its result under the number `job`.
    Start { job: usize, card: Card },
    /// Nothing can begin: wait for a fetch to end and report it.
    Wait,
    /// Every fetch handed out has reported. `Ok` lists each image with its
    /// result; `Err` names the first image, in the order of the card list,
    /// whose fetch failed.
    Finish(Result<Vec<Fetched>, BatchFailure>),
}

/// The mathematical content of a [`Batch`].
pub struct BatchView {
    /// The cards to fetch, one for each image.
    pub jobs: Seq<Card>,
    /// How many fetches may be under way at once.
    pub limit: int,
    /// How many jobs have been handed out: those with a lower number.
    pub started: int,
    /// The result of each job, as far as it has reported.
    pub results: Seq<Option<FetchResult>>,
    /// The jobs under way.
    pub in_flight: Seq<usize>,
}

impl BatchView {
    /// Whether job `i` has reported a failure.
    pub open spec fn has_failed(self, i: int) -> bool {
        0 <= i < self.results.len() && self.results[i] matches Some(FetchResult::Failed(_))
    }

    /// Whether any job has reported a failure.
    pub open spec fn failed(self) -> bool {
        exists|i: int| #[trigger] self.has_failed(i)
    }

    /// Whether job `i` is the first, in the order of the card list, that
    /// reported a failure.
    pub open spec fn first_failure(self, i: int) -> bool {
        self.has_failed(i) && forall|j: int| 0 <= j < i ==> !#[trigger] self.has_failed(j)
    }

    /// Whether a job may be handed out: none has failed, one is left, and the
    /// limit is not reached.
    pub open spec fn can_start(self) -> bool {
        !self.failed() && self.started < self.jobs.len() && self.in_flight.len() < self.limit
    }

    /// No image has two jobs; the jobs handed out are those with a number
    /// below `started`; exactly those of them that have not reported are
    /// under way, and they are no more than the limit; a job that was not
    /// handed out has no result.
    pub open spec fn wf(self) -> bool {
        &&& unique_ids(self.jobs)
        &&& 1 <= self.limit
        &&& 0 <= self.started <= self.jobs.len() <= usize::MAX
        &&& self.results.len() == self.jobs.len()
        &&& self.in_flight.no_duplicates()
        &&& self.in_flight.len() <= self.limit
        &&& forall|k: int|
            0 <= k < self.in_flight.len() ==> (#[trigger] self.in_flight[k]) < self.started
        &&& forall|j: usize|
            j < self.started ==> (self.in_flight.contains(j) <==> #[trigger] self.results[j as int]
                is None)
        &&& forall|i: int|
            self.started <= i < self.results.len() ==> #[trigger] self.results[i] is None
    }

    /// Whether `outcome` is what a batch in this state ends with.
    pub open spec fn ends_with(self, outcome: Result<Vec<Fetched>, BatchFailure>) -> bool {
        match outcome {
            Ok(fetched) => {
                &&& !self.failed()
                &&& fetched@.len() == self.jobs.len()
                &&& forall|i: int|
                    0 <= i < self.jobs.len() ==> (#[trigger] fetched@[i]).asset_id@
                        == self.jobs[i].scryfall_id@ && self.results[i] == Some(fetched@[i].result)
            },
            Err(failure) => exists|i: int|
                {
                    &&& #[trigger] self.first_failure(i)
                    &&& failure.asset_id@ == self.jobs[i].scryfall_id@
                    &&& self.results[i] == Some(FetchResult::Failed(failure.error))
                },
        }
    }
}

/// Once nothing is under way, every job that was handed out has reported.
pub proof fn lemma_nothing_leaks(batch: BatchView)
    requires
        batch.wf(),
        batch.in_flight.len() == 0,
    ensures
        forall|i: int| 0 <= i < batch.started ==> #[trigger] batch.results[i] is Some,
{
    assert forall|i: int| 0 <= i < batch.started implies #[trigger] batch.results[i] is Some by {
        let j = i as usize;
        assert(batch.in_flight.contains(j) <==> batch.results[j as int] is None);
    }
}

/// A batch that can neither begin a job nor has one under way has handed out
/// every job, unless one has failed.
pub proof fn lemma_ends_complete(batch: BatchView)
    requires
        batch.wf(),
        !batch.can_start(),
        batch.in_flight.len() == 0,
        !batch.failed(),
    ensures
        batch.started == batch.jobs.len(),
        forall|i: int| 0 <= i < batch.jobs.len() ==> #[trigger] batch.results[i] is Some,
{
    lemma_nothing_leaks(batch);
}

/// The fetches of one card list.
pub struct Batch {
    jobs: Vec<Card>,
    limit: usize,
    started: usize,
    results: Vec<Option<FetchResult>>,
    in_flight: Vec<usize>,
    failed: bool,
}

impl View for Batch {
    type V = BatchView;

    closed spec fn view(&self) -> BatchView {
        BatchView {
            jobs: self.jobs@,
            limit: self.limit as int,
            started: self.started as int,
            results: self.results@,
            in_flight: self.in_flight@,
        }
    }
}

impl Batch {
    #[verifier::type_invariant]
    spec fn inv(self) -> bool {
        self@.wf() && self.failed == self@.failed()
    }

    /// The fetches for `cards`, at most `limit` of them at once: one job for
    /// each image, none of them handed out yet. `None` where `limit` is 0,
    /// which would let no fetch begin.
    pub fn new(cards: &Vec<Card>, limit: usize) -> (batch: Option<Batch>)
        ensures
            batch is Some <==> limit >= 1,
            batch matches Some(b) ==> {
                &&& b@.wf()
                &&& b@.jobs == distinct(cards@)
                &&& b@.limit == limit
                &&& b@.started == 0
                &&& b@.in_flight.len() == 0
                &&& !b@.failed()
                &&& forall|i: int| 0 <= i < b@.results.len() ==> #[trigger] b@.results[i] is None
            },
    {
        if limit == 0 {
            return None;
        }
        let jobs = distinct_cards(cards);
        let mut results: Vec<Option<FetchResult>> = Vec::new();
        let mut i: usize = 0;
        while i < jobs.len()
            invariant
                0 <= i <= jobs@.len(),
                results@.len() == i,
                forall|k: int| 0 <= k < i ==> #[trigger] results@[k] is None,
            decreases jobs@.len() - i,
        {
            results.push(None);
            i = i + 1;
        }
        let in_flight: Vec<usize> = Vec::new();
        let batch = Batch { jobs, limit, started: 0, results, in_flight, failed: false };
        Some(batch)
    }

    /// The cards to fetch, one for each image.
    pub fn jobs(&self) -> (jobs: &Vec<Card>)
        ensures
            jobs@ == self@.jobs,
    {
        &self.jobs
    }

    /// How many fetches are under way.
    pub fn running(&self) -> (n: usize)
        ensures
            n == self@.in_flight.len(),
            n <= self@.limit,
            self@.wf(),
    {
        proof {
            use_type_invariant(self);
        }
        self.in_flight.len()
    }

    /// What to do next.
    ///
    /// Hands out the next job where one [may begin](BatchView::can_start);
    /// otherwise asks to wait while fetches are under way; otherwise ends the
    /// batch.
    pub fn poll(self) -> (next: (Batch, BatchAction))
        ensures
            self@.wf(),
            next.0@.wf(),
            match next.1 {
                BatchAction::Start { job, card } => {
                    &&& self@.can_start()
                    &&& job == self@.started
                    &&& card == self@.jobs[job as int]
                    &&& next.0@ == (BatchView {
                        started: self@.started + 1,
                        in_flight: self@.in_flight.push(job),
                        ..self@
                    })
                },
                BatchAction::Wait => {
                    &&& !self@.can_start()
                    &&& self@.in_flight.len() > 0
                    &&& next.0@ == self@
                },
                BatchAction::Finish(outcome) => {
                    &&& !self@.can_start()
                    &&& self@.in_flight.len() == 0
                    &&& next.0@ == self@
                    &&& self@.ends_with(outcome)
                },
            },
    {
        proof {
            use_type_invariant(&self);
        }
        let ghost before = self@;
        if !self.failed && self.started < self.jobs.len() && self.in_flight.len() < self.limit {
            let Batch { jobs, limit, started, results, mut in_flight, failed } = self;
            let card = jobs[started].clone();
            in_flight.push(started);
            let ghost after = BatchView {
                started: before.started + 1,
                in_flight: before.in_flight.push(started),
                ..before
            };
            proof {
                assert(after.in_flight.no_duplicates()) by {
                    assert forall|a: int, b: int|
                        0 <= a < after.in_flight.len() && 0 <= b < after.in_flight.len() && a
                            != b implies after.in_flight[a] != after.in_flight[b] by {
                        if a < before.in_flight.len() {
                            assert(before.in_flight[a] < before.started);
                        }
                        if b < before.in_flight.len() {
                            assert(before.in_flight[b] < before.started);
                        }
                    }
                }
                assert forall|k: int| 0 <= k < after.in_flight.len() implies (
                #[trigger] after.in_flight[k]) < after.started by {
                    if k < before.in_flight.len() {
                        assert(before.in_flight[k] < before.started);
                    }
                }
                assert forall|j: usize| j < after.started implies (after.in_flight.contains(j)
                    <==> #[trigger] after.results[j as int] is None) by {
                    if j == started {
                        assert(after.in_flight[before.in_flight.len() as int] == j);
                        assert(before.results[j as int] is None);
                    } else {
                        if before.in_flight.contains(j) {
                            let k = choose|k: int|
                                0 <= k < before.in_flight.len() && before.in_flight[k] == j;
                            assert(after.in_flight[k] == j);
                        }
                        if after.in_flight.contains(j) {
                            let k = choose|k: int|
                                0 <= k < after.in_flight.len() && after.in_flight[k] == j;
                            assert(before.in_flight[k] == j);
                        }
                    }
                }
                assert(after.failed() == before.failed()) by {
                    if after.failed() {
                        let f = choose|f: int| after.has_failed(f);
                        assert(before.has_failed(f));
                    }
                    if before.failed() {
                        let f = choose|f: int| before.has_failed(f);
                        assert(after.has_failed(f));
                    }
                }
            }
            let batch = Batch { jobs, limit, started: started + 1, results, in_flight, failed };
            (batch, BatchAction::Start { job: started, card })
        } else if self.in_flight.len() > 0 {
            (self, BatchAction::Wait)
        } else {
            let outcome = self.outcome();
            (self, BatchAction::Finish(outcome))
        }
    }

    /// What the batch ends with once nothing is under way and nothing may
    /// begin.
    fn outcome(&self) -> (outcome: Result<Vec<Fetched>, BatchFailure>)
        requires
            !self@.can_start(),
            self@.in_flight.len() == 0,
        ensures
            self@.ends_with(outcome),
    {
        proof {
            use_type_invariant(self);
        }
        let ghost view = self@;
        let mut fetched: Vec<Fetched> = Vec::new();
        let mut i: usize = 0;
        while i < self.jobs.len()
            invariant
                view == self@,
                view.wf(),
                self.failed == view.failed(),
                !view.can_start(),
                view.in_flight.len() == 0,
                0 <= i <= view.jobs.len(),
                fetched@.len() == i,
                forall|j: int| 0 <= j < i ==> !#[trigger] view.has_failed(j),
                forall|j: int|
                    0 <= j < i ==> (#[trigger] fetched@[j]).asset_id@ == view.jobs[j].scryfall_id@
                        && view.results[j] == Some(fetched@[j].result),
            decreases view.jobs.len() - i,
        {
            match self.results[i] {
                Some(FetchResult::Failed(error)) => {
                    assert(view.first_failure(i as int));
                    return Err(BatchFailure { asset_id: self.jobs[i].scryfall_id.clone(), error });
                },
                Some(result) => {
                    fetched.push(Fetched { asset_id: self.jobs[i].scryfall_id.clone(), result });
                },
                None => {
                    // A job without a result was never handed out, and only a
                    // failure holds jobs back.
                    assert(!view.in_flight.contains(i));
                    assert(view.started <= i);
                    assert(view.failed());
                    let ghost f = choose|f: int| view.has_failed(f);
                    assert(f >= i) by {
                        if f < i {
                            assert(!view.has_failed(f));
                        }
                    }
                    assert(view.results[f] is None);
                    vstd::pervasive::unreached()
                },
            }
            i = i + 1;
        }
        proof {
            if view.failed() {
                let f = choose|f: int| view.has_failed(f);
                assert(!view.has_failed(f));
            }
        }
        Ok(fetched)
    }

    /// Takes in the result of job `job`.
    ///
    /// Returns `false`, and leaves the batch as it is, where that job is not
    /// under way.
    pub fn complete(self, job: usize, result: FetchResult) -> (next: (Batch, bool))
        ensures
            self@.wf(),
            next.0@.wf(),
            next.1 == self@.in_flight.contains(job),
            !next.1 ==> next.0@ == self@,
            next.1 ==> exists|p: int|
                {
                    &&& 0 <= p < self@.in_flight.len()
                    &&& #[trigger] self@.in_flight[p] == job
                    &&& next.0@ == (BatchView {
                        results: self@.results.update(job as int, Some(result)),
                        in_flight: self@.in_flight.remove(p),
                        ..self@
                    })
                },
    {
        proof {
            use_type_invariant(&self);
        }
        let ghost before = self@;
        let p = match position_of(&self.in_flight, job) {
            Some(p) => p,
            None => {
                return (self, false);
            },
        };
        let Batch { jobs, limit, started, mut results, mut in_flight, failed } = self;
        assert(before.in_flight[p as int] < before.started);
        in_flight.remove(p);
        results.set(job, Some(result));
        let now_failed = failed || match result {
            FetchResult::Failed(_) => true,
            _ => false,
        };
        let ghost after = BatchView {
            results: before.results.update(job as int, Some(result)),
            in_flight: before.in_flight.remove(p as int),
            ..before
        };
        proof {
            before.in_flight.remove_ensures(p as int);
            assert forall|k: int| 0 <= k < after.in_flight.len() implies (
            #[trigger] after.in_flight[k]) < after.started && after.in_flight[k] != job by {
                if k < p {
                    assert(after.in_flight[k] == before.in_flight[k]);
                } else {
                    assert(after.in_flight[k] == before.in_flight[k + 1]);
                }
            }
            assert forall|j: usize| j < after.started implies (after.in_flight.contains(j)
                <==> #[trigger] after.results[j as int] is None) by {
                if j != job {
                    assert(after.results[j as int] == before.results[j as int]);
                    if before.in_flight.contains(j) {
                        let k = choose|k: int|
                            0 <= k < before.in_flight.len() && before.in_flight[k] == j;
                        if k < p {
                            assert(after.in_flight[k] == j);
                        } else {
                            assert(after.in_flight[k - 1] == j);
                        }
                    }
                    if after.in_flight.contains(j) {
                        let k = choose|k: int|
                            0 <= k < after.in_flight.len() && after.in_flight[k] == j;
                        if k < p {
                            assert(before.in_flight[k] == j);
                        } else {
                            assert(before.in_flight[k + 1] == j);
                        }
                    }
                }
            }
            assert forall|i: int| after.started <= i < after.results.len() implies (
            #[trigger] after.results[i]) is None by {
                assert(before.results[i] is None);
            }
            assert(before.results[job as int] is None);
            if after.failed() {
                let f = choose|f: int| after.has_failed(f);
                if f != job {
                    assert(before.has_failed(f));
                }
            }
            if before.failed() {
                let f = choose|f: int| before.has_failed(f);
                assert(after.has_failed(f));
            }
            if result is Failed {
                assert(after.has_failed(job as int));
            }
        }
        let batch = Batch { jobs, limit, started, results, in_flight, failed: now_failed };
        (batch, true)
    }
}

/// The result that `fetched` lists for the image `id`, if it lists one.
pub open spec fn result_of(fetched: Seq<Fetched>, id: Seq<char>) -> Option<FetchResult>
    decreases fetched.len(),
{
    if fetched.len() == 0 {
        None
    } else if fetched[0].asset_id@ == id {
        Some(fetched[0].result)
    } else {
        result_of(fetched.skip(1), id)
    }
}

/// Looks up how the fetch of one card's image ended: the first entry of
/// `fetched` for its identifier.
pub fn find_result(fetched: &Vec<Fetched>, card: &Card) -> (result: Option<FetchResult>)
    ensures
        result == result_of(fetched@, card.scryfall_id@),
{
    let mut i: usize = 0;
    assert(fetched@.skip(0) =~= fetched@);
    while i < fetched.len()
        invariant
            0 <= i <= fetched@.len(),
            result_of(fetched@, card.scryfall_id@) == result_of(
                fetched@.skip(i as int),
                card.scryfall_id@,
            ),
        decreases fetched@.len() - i,
    {
        if fetched[i].asset_id == card.scryfall_id {
            assert(fetched@.skip(i as int)[0] == fetched@[i as int]);
            return Some(fetched[i].result);
        }
        assert(fetched@.skip(i as int).skip(1) =~= fetched@.skip(i + 1));
        i = i + 1;
    }
    None
}

} // verus!
