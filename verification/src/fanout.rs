//! Fan-out: a batch of independent legs run under a bounded window, and the
//! two ways of reading what the legs gave.
//!
//! The window is a state machine. Its caller starts the leg that
//! [`Fanout::start_next`] names, waits for any running leg to end, and hands
//! the outcome to [`Fanout::complete`]. The machine keeps each outcome under
//! the index of its leg and never looks into it, so a leg's failure cannot
//! touch another leg. What the batch as a whole yields is decided afterwards,
//! by [`join_all_or_fail`] or by [`bounded_tolerant`].

use vstd::prelude::*;

use crate::error::Error;

verus! {

/// The window width used where none is configured.
pub const DEFAULT_CONCURRENCY: usize = 10;

/// One batch in progress.
pub struct Fanout<T> {
    width: usize,
    started: usize,
    settled: usize,
    slots: Vec<Option<T>>,
}

/// A batch as a mathematical value: the window width, the number of legs
/// started so far (legs start in order), and each leg's outcome once it is in.
pub ghost struct Batch<T> {
    pub width: nat,
    pub started: nat,
    pub legs: Seq<Option<T>>,
}

/// How many legs have an outcome.
pub open spec fn settled_count<T>(legs: Seq<Option<T>>) -> nat
    decreases legs.len(),
{
    if legs.len() == 0 {
        0
    } else {
        settled_count(legs.drop_last()) + if legs.last() is Some {
            1nat
        } else {
            0nat
        }
    }
}

impl<T> Batch<T> {
    /// Legs that have started and have no outcome yet.
    pub open spec fn in_flight(self) -> int {
        self.started - settled_count(self.legs)
    }

    /// Whether every leg has an outcome.
    pub open spec fn finished(self) -> bool {
        settled_count(self.legs) == self.legs.len()
    }

    /// Whether another leg may start now: one is still queued and the window
    /// has room.
    pub open spec fn can_start(self) -> bool {
        self.started < self.legs.len() && self.in_flight() < self.width
    }

    /// Whether `leg` is running: started, and without an outcome.
    pub open spec fn is_running(self, leg: int) -> bool {
        0 <= leg < self.started && self.legs[leg] is None
    }

    /// What holds of every batch: the window is at least one leg wide, only
    /// started legs have outcomes, and no more legs are in flight than the
    /// window is wide.
    pub open spec fn wf(self) -> bool {
        &&& self.width >= 1
        &&& self.started <= self.legs.len()
        &&& forall|i: int| self.started <= i < self.legs.len() ==> self.legs[i] is None
        &&& 0 <= self.in_flight() <= self.width
    }
}

/// No more legs have an outcome than there are legs.
pub proof fn lemma_settled_at_most_len<T>(legs: Seq<Option<T>>)
    ensures
        settled_count(legs) <= legs.len(),
    decreases legs.len(),
{
    if legs.len() > 0 {
        lemma_settled_at_most_len(legs.drop_last());
    }
}

/// Where every leg has an outcome, each one has.
pub proof fn lemma_all_settled<T>(legs: Seq<Option<T>>)
    requires
        settled_count(legs) == legs.len(),
    ensures
        forall|i: int| 0 <= i < legs.len() ==> (#[trigger] legs[i]) is Some,
    decreases legs.len(),
{
    if legs.len() > 0 {
        lemma_settled_at_most_len(legs.drop_last());
        lemma_all_settled(legs.drop_last());
        assert forall|i: int| 0 <= i < legs.len() implies (#[trigger] legs[i]) is Some by {
            if i < legs.len() - 1 {
                assert(legs.drop_last()[i] == legs[i]);
            }
        }
    }
}

/// Legs without an outcome do not count: only the first `k` legs matter when
/// none of the others has one.
pub proof fn lemma_settled_prefix<T>(legs: Seq<Option<T>>, k: int)
    requires
        0 <= k <= legs.len(),
        forall|i: int| k <= i < legs.len() ==> legs[i] is None,
    ensures
        settled_count(legs) == settled_count(legs.take(k)),
    decreases legs.len(),
{
    if k == legs.len() {
        assert(legs.take(k) =~= legs);
    } else {
        lemma_settled_prefix(legs.drop_last(), k);
        assert(legs.drop_last().take(k) =~= legs.take(k));
    }
}

/// Giving an outcome to a leg that had none raises the count by one.
pub proof fn lemma_settle_one<T>(
    legs: Seq<Option<T>>,
    leg: int,
    outcome: T,
)
    requires
        0 <= leg < legs.len(),
        legs[leg] is None,
    ensures
        settled_count(legs.update(leg, Some(outcome))) == settled_count(legs) + 1,
    decreases legs.len(),
{
    let after = legs.update(leg, Some(outcome));
    if leg == legs.len() - 1 {
        assert(after.drop_last() =~= legs.drop_last());
    } else {
        lemma_settle_one(legs.drop_last(), leg, outcome);
        assert(after.drop_last() =~= legs.drop_last().update(leg, Some(outcome)));
    }
}

/// Where exactly the first `k` legs have an outcome, `k` legs have one.
pub proof fn lemma_settled_front<T>(legs: Seq<Option<T>>, k: int)
    requires
        0 <= k <= legs.len(),
        forall|i: int| 0 <= i < k ==> legs[i] is Some,
        forall|i: int| k <= i < legs.len() ==> legs[i] is None,
    ensures
        settled_count(legs) == k,
    decreases legs.len(),
{
    if legs.len() > 0 {
        if k == legs.len() {
            lemma_settled_front(legs.drop_last(), k - 1);
        } else {
            lemma_settled_front(legs.drop_last(), k);
        }
    }
}

/// The window is never overfull: at most `width` legs are in flight.
pub proof fn lemma_window_bounded<T>(batch: Batch<T>)
    requires
        batch.wf(),
    ensures
        batch.in_flight() <= batch.width,
{
}

/// A batch that is not finished is never stuck: either a leg may start, or a
/// leg is running whose end will come.
pub proof fn lemma_progress<T>(batch: Batch<T>)
    requires
        batch.wf(),
        !batch.finished(),
    ensures
        batch.can_start() || batch.in_flight() > 0,
{
    lemma_settled_at_most_len(batch.legs);
    lemma_settled_prefix(batch.legs, batch.started as int);
    lemma_settled_at_most_len(batch.legs.take(batch.started as int));
}

impl<T> View for Fanout<T> {
    type V = Batch<T>;

    closed spec fn view(&self) -> Batch<T> {
        Batch { width: self.width as nat, started: self.started as nat, legs: self.slots@ }
    }
}

impl<T> Fanout<T> {
    /// Whether the machine's own tally of settled legs is right.
    pub closed spec fn tallied(&self) -> bool {
        self.settled == settled_count(self.slots@)
    }

    /// The invariant of the machine: the batch it stands for is well formed,
    /// and its tally is right.
    pub open spec fn wf(&self) -> bool {
        self@.wf() && self.tallied()
    }

    /// A batch of `total` legs, none started, under a window `concurrency`
    /// legs wide. A window of width zero could never start a leg: there is no
    /// such batch.
    pub fn new(total: usize, concurrency: usize) -> (batch: Option<Fanout<T>>)
        ensures
            match batch {
                Some(b) => {
                    &&& concurrency >= 1
                    &&& b.wf()
                    &&& b@.width == concurrency
                    &&& b@.started == 0
                    &&& b@.legs == Seq::new(total as nat, |i: int| None::<T>)
                },
                None => concurrency == 0,
            },
    {
        if concurrency == 0 {
            return None;
        }
        let mut slots: Vec<Option<T>> = Vec::new();
        let mut i: usize = 0;
        while i < total
            invariant
                i <= total,
                slots@.len() == i,
                forall|k: int| 0 <= k < i ==> slots@[k] is None,
            decreases total - i,
        {
            slots.push(None);
            i = i + 1;
        }
        proof {
            assert(slots@ =~= Seq::new(total as nat, |i: int| None::<T>));
            lemma_settled_prefix(slots@, 0);
            assert(slots@.take(0) =~= Seq::empty());
        }
        Some(Fanout { width: concurrency, started: 0, settled: 0, slots })
    }

    /// Names the next leg to start, if one may start now, and counts it as
    /// started. Legs start in order.
    pub fn start_next(&mut self) -> (leg: Option<usize>)
        requires
            old(self).wf(),
        ensures
            final(self).wf(),
            match leg {
                Some(i) => {
                    &&& old(self)@.can_start()
                    &&& i == old(self)@.started
                    &&& final(self)@ == (Batch { started: old(self)@.started + 1, ..old(self)@ })
                },
                None => !old(self)@.can_start() && final(self)@ == old(self)@,
            },
    {
        proof {
            lemma_settled_prefix(self.slots@, self.started as int);
            lemma_settled_at_most_len(self.slots@.take(self.started as int));
        }
        if self.started < self.slots.len() && self.started - self.settled < self.width {
            let leg = self.started;
            self.started = self.started + 1;
            Some(leg)
        } else {
            None
        }
    }

    /// Takes in the outcome of a running leg. An outcome for a leg that is
    /// not running (never started, already settled, or out of range) is
    /// refused and changes nothing.
    pub fn complete(&mut self, leg: usize, outcome: T) -> (accepted: bool)
        requires
            old(self).wf(),
        ensures
            final(self).wf(),
            accepted == old(self)@.is_running(leg as int),
            accepted ==> final(self)@ == (Batch {
                legs: old(self)@.legs.update(leg as int, Some(outcome)),
                ..old(self)@
            }),
            !accepted ==> final(self)@ == old(self)@,
    {
        if leg < self.started && self.slots[leg].is_none() {
            proof {
                let after = self.slots@.update(leg as int, Some(outcome));
                lemma_settle_one(self.slots@, leg as int, outcome);
                lemma_settled_prefix(after, self.started as int);
                lemma_settled_at_most_len(after.take(self.started as int));
            }
            self.slots.set(leg, Some(outcome));
            self.settled = self.settled + 1;
            true
        } else {
            false
        }
    }

    /// The number of legs in flight.
    pub fn in_flight(&self) -> (n: usize)
        requires
            self.wf(),
        ensures
            n == self@.in_flight(),
            n <= self@.width,
    {
        self.started - self.settled
    }

    /// Whether every leg has an outcome.
    pub fn is_finished(&self) -> (done: bool)
        requires
            self.wf(),
        ensures
            done == self@.finished(),
    {
        self.settled == self.slots.len()
    }

    /// The outcomes in the order of the legs, once the batch is finished;
    /// `None` while a leg is still queued or running.
    pub fn into_outcomes(self) -> (outcomes: Option<Vec<T>>)
        requires
            self.wf(),
        ensures
            match outcomes {
                Some(v) => {
                    &&& self@.finished()
                    &&& v@.len() == self@.legs.len()
                    &&& forall|i: int| 0 <= i < v@.len() ==> self@.legs[i] == Some(#[trigger] v@[i])
                },
                None => !self@.finished(),
            },
    {
        if self.settled != self.slots.len() {
            return None;
        }
        let ghost legs = self.slots@;
        proof {
            lemma_all_settled(legs);
        }
        let mut slots = self.slots;
        let mut backwards: Vec<T> = Vec::new();
        while slots.len() > 0
            invariant
                slots@ == legs.take(slots@.len() as int),
                slots@.len() <= legs.len(),
                backwards@.len() == legs.len() - slots@.len(),
                forall|i: int| 0 <= i < legs.len() ==> (#[trigger] legs[i]) is Some,
                forall|j: int|
                    0 <= j < backwards@.len() ==> legs[legs.len() - 1 - j] == Some(
                        #[trigger] backwards@[j],
                    ),
            decreases slots@.len(),
        {
            let ghost at = slots@.len() - 1;
            let slot = slots.pop();
            assert(slot == Some(legs[at]));
            assert(slots@ =~= legs.take(at));
            match slot {
                Some(Some(outcome)) => {
                    backwards.push(outcome);
                },
                _ => {
                    assert(legs[at] is Some);
                    assert(false);
                    return None;
                },
            }
        }
        let mut outcomes: Vec<T> = Vec::new();
        while backwards.len() > 0
            invariant
                outcomes@.len() + backwards@.len() == legs.len(),
                forall|j: int|
                    0 <= j < backwards@.len() ==> legs[legs.len() - 1 - j] == Some(
                        #[trigger] backwards@[j],
                    ),
                forall|i: int| 0 <= i < outcomes@.len() ==> legs[i] == Some(#[trigger] outcomes@[i]),
            decreases backwards@.len(),
        {
            let ghost j = backwards@.len() - 1;
            let ghost held = backwards@[j];
            match backwards.pop() {
                Some(outcome) => {
                    assert(outcome == held);
                    assert(legs[legs.len() - 1 - j] == Some(held));
                    outcomes.push(outcome);
                },
                None => {
                    assert(false);
                    return None;
                },
            }
        }
        Some(outcomes)
    }
}

/// Runs `total` tasks under a window `concurrency` legs wide and returns what
/// each gave, in the order of the tasks. Task `i` is the call `task(i)`. The
/// tasks are run one after another here, each as soon as the window has let
/// it start, so the window only decides the order of the calls: the outcomes
/// are the same for every width. There are none for a window of width zero.
pub fn run_bounded<T, F: Fn(usize) -> T>(total: usize, concurrency: usize, task: F) -> (outcomes:
    Option<Vec<T>>)
    requires
        forall|leg: usize| leg < total ==> call_requires(task, (leg,)),
    ensures
        match outcomes {
            Some(given) => {
                &&& concurrency >= 1
                &&& given@.len() == total
                &&& forall|i: int|
                    0 <= i < total ==> call_ensures(task, (i as usize,), #[trigger] given@[i])
            },
            None => concurrency == 0,
        },
{
    let mut batch: Fanout<T> = match Fanout::new(total, concurrency) {
        Some(batch) => batch,
        None => {
            return None;
        },
    };
    let mut oldest: usize = 0;
    while oldest < total
        invariant
            forall|leg: usize| leg < total ==> call_requires(task, (leg,)),
            batch.wf(),
            batch@.legs.len() == total,
            oldest <= batch@.started,
            oldest <= total,
            forall|i: int| 0 <= i < oldest ==> batch@.legs[i] is Some,
            forall|i: int| oldest <= i < total ==> batch@.legs[i] is None,
            forall|i: int|
                0 <= i < oldest ==> call_ensures(task, (i as usize,), #[trigger] batch@.legs[i]->0),
        decreases total - oldest,
    {
        loop
            invariant_except_break
                batch.wf(),
                batch@.legs.len() == total,
                oldest <= batch@.started,
                forall|i: int| 0 <= i < oldest ==> batch@.legs[i] is Some,
                forall|i: int| oldest <= i < total ==> batch@.legs[i] is None,
                forall|i: int|
                    0 <= i < oldest ==> call_ensures(
                        task,
                        (i as usize,),
                        #[trigger] batch@.legs[i]->0,
                    ),
            ensures
                batch.wf(),
                batch@.legs.len() == total,
                oldest <= batch@.started,
                !batch@.can_start(),
                forall|i: int| 0 <= i < oldest ==> batch@.legs[i] is Some,
                forall|i: int| oldest <= i < total ==> batch@.legs[i] is None,
                forall|i: int|
                    0 <= i < oldest ==> call_ensures(
                        task,
                        (i as usize,),
                        #[trigger] batch@.legs[i]->0,
                    ),
            decreases total - batch@.started,
        {
            match batch.start_next() {
                Some(_) => {},
                None => {
                    break;
                },
            }
        }
        proof {
            lemma_settled_front(batch@.legs, oldest as int);
        }
        let ghost before = batch@.legs;
        let outcome = task(oldest);
        let accepted = batch.complete(oldest, outcome);
        assert(accepted);
        assert forall|i: int| 0 <= i < oldest + 1 implies call_ensures(
            task,
            (i as usize,),
            #[trigger] batch@.legs[i]->0,
        ) by {
            if i < oldest {
                assert(batch@.legs[i] == before[i]);
            }
        }
        oldest = oldest + 1;
    }
    proof {
        lemma_settled_front(batch@.legs, total as int);
    }
    batch.into_outcomes()
}

/// Whether leg `k` is the first that failed: it failed, and every leg before
/// it succeeded.
pub open spec fn is_first_failure<T>(outcomes: Seq<Result<T, Error>>, k: int) -> bool {
    &&& 0 <= k < outcomes.len()
    &&& outcomes[k] is Err
    &&& forall|j: int| 0 <= j < k ==> (#[trigger] outcomes[j]) is Ok
}

/// The successes among the outcomes, each with the index of its leg, in the
/// order of the legs.
pub open spec fn successes<T>(outcomes: Seq<Result<T, Error>>) -> Seq<(int, T)>
    decreases outcomes.len(),
{
    if outcomes.len() == 0 {
        Seq::empty()
    } else {
        let earlier = successes(outcomes.drop_last());
        match outcomes.last() {
            Ok(value) => earlier.push((outcomes.len() - 1, value)),
            Err(_) => earlier,
        }
    }
}

/// Pairs of leg and value, with the leg as a mathematical integer.
pub open spec fn indexed<T>(kept: Seq<(usize, T)>) -> Seq<(int, T)> {
    kept.map_values(|pair: (usize, T)| (pair.0 as int, pair.1))
}

/// Whether `result` is what an all-or-nothing batch with these outcomes
/// yields: the values of all legs, in order, if every leg succeeded; otherwise
/// the error of the first leg that failed.
pub open spec fn joins<T>(outcomes: Seq<Result<T, Error>>, result: Result<Seq<T>, Error>) -> bool {
    match result {
        Ok(values) => {
            &&& values.len() == outcomes.len()
            &&& forall|i: int|
                0 <= i < outcomes.len() ==> outcomes[i] == Ok::<T, Error>(#[trigger] values[i])
        },
        Err(error) => exists|k: int|
            is_first_failure(outcomes, k) && outcomes[k] == Err::<T, Error>(error),
    }
}

/// All or nothing: the values of all legs, in order, if every leg succeeded;
/// otherwise the error of the first leg that failed, and no value of any leg.
pub fn join_all_or_fail<T>(outcomes: Vec<Result<T, Error>>) -> (result: Result<Vec<T>, Error>)
    ensures
        match result {
            Ok(values) => joins(outcomes@, Ok(values@)),
            Err(error) => joins(outcomes@, Err(error)),
        },
{
    let ghost all = outcomes@;
    let mut values: Vec<T> = Vec::new();
    for outcome in iter: outcomes
        invariant
            iter.seq() == all,
            values@.len() == iter.index(),
            forall|i: int| 0 <= i < iter.index() ==> all[i] == Ok::<T, Error>(#[trigger] values@[i]),
    {
        match outcome {
            Ok(value) => {
                values.push(value);
            },
            Err(error) => {
                proof {
                    let k = iter.index();
                    assert forall|j: int| 0 <= j < k implies (#[trigger] all[j]) is Ok by {
                        assert(all[j] == Ok::<T, Error>(values@[j]));
                    }
                    assert(is_first_failure(all, k));
                }
                return Err(error);
            },
        }
    }
    Ok(values)
}

/// Each leg on its own: the successes with the indices of their legs, in the
/// order of the legs. Failed legs are left out and fail nothing. How wide the
/// window was under which the legs ran makes no difference to what they gave,
/// so it is no input here.
pub fn bounded_tolerant<T>(outcomes: Vec<Result<T, Error>>) -> (kept: Vec<(usize, T)>)
    ensures
        indexed(kept@) == successes(outcomes@),
{
    let ghost all = outcomes@;
    let total: usize = outcomes.len();
    let mut kept: Vec<(usize, T)> = Vec::new();
    let mut leg: usize = 0;
    assert(all.take(0) =~= Seq::empty());
    assert(indexed(kept@) =~= Seq::empty());
    for outcome in iter: outcomes
        invariant
            iter.seq() == all,
            leg == iter.index(),
            leg <= all.len(),
            all.len() == total,
            indexed(kept@) == successes(all.take(leg as int)),
    {
        let ghost before = indexed(kept@);
        proof {
            let grown = all.take(leg + 1);
            assert(grown.drop_last() =~= all.take(leg as int));
            assert(grown.last() == outcome);
        }
        match outcome {
            Ok(value) => {
                kept.push((leg, value));
                assert(indexed(kept@) =~= before.push((leg as int, value)));
            },
            Err(_) => {},
        }
        leg = leg + 1;
    }
    assert(all.take(leg as int) =~= all);
    kept
}

/// Every success is the value of the leg it names, and the legs it names
/// come in ascending order.
pub proof fn lemma_successes_sound<T>(outcomes: Seq<Result<T, Error>>)
    ensures
        successes(outcomes).len() <= outcomes.len(),
        forall|k: int|
            0 <= k < successes(outcomes).len() ==> {
                let (leg, value) = #[trigger] successes(outcomes)[k];
                0 <= leg < outcomes.len() && outcomes[leg] == Ok::<T, Error>(value)
            },
        forall|a: int, b: int|
            0 <= a < b < successes(outcomes).len() ==> successes(outcomes)[a].0 < successes(
                outcomes,
            )[b].0,
    decreases outcomes.len(),
{
    if outcomes.len() > 0 {
        let front = outcomes.drop_last();
        lemma_successes_sound(front);
        assert forall|k: int| 0 <= k < successes(outcomes).len() implies {
            let (leg, value) = #[trigger] successes(outcomes)[k];
            0 <= leg < outcomes.len() && outcomes[leg] == Ok::<T, Error>(value)
        } by {
            if k < successes(front).len() {
                let (leg, value) = successes(front)[k];
                assert(front[leg] == outcomes[leg]);
            }
        }
        assert forall|a: int, b: int| 0 <= a < b < successes(outcomes).len() implies successes(
            outcomes,
        )[a].0 < successes(outcomes)[b].0 by {
            if b == successes(front).len() {
                let (leg, value) = successes(front)[a];
                assert(leg < front.len());
            }
        }
    }
}

/// Where exactly the odd-numbered legs fail, a tolerant batch yields exactly
/// the values of the even-numbered legs, in order, whatever the number of legs.
pub proof fn lemma_tolerant_keeps_even_legs<T>(outcomes: Seq<Result<T, Error>>)
    requires
        forall|i: int| 0 <= i < outcomes.len() ==> ((#[trigger] outcomes[i]) is Err <==> i % 2 == 1),
    ensures
        successes(outcomes).len() == (outcomes.len() + 1) / 2,
        forall|k: int|
            0 <= k < successes(outcomes).len() ==> #[trigger] successes(outcomes)[k] == (
                2 * k,
                outcomes[2 * k]->Ok_0,
            ),
    decreases outcomes.len(),
{
    if outcomes.len() > 0 {
        let front = outcomes.drop_last();
        assert forall|i: int| 0 <= i < front.len() implies ((#[trigger] front[i]) is Err <==> i % 2
            == 1) by {
            assert(front[i] == outcomes[i]);
        }
        lemma_tolerant_keeps_even_legs(front);
        assert forall|k: int| 0 <= k < successes(outcomes).len() implies #[trigger] successes(
            outcomes,
        )[k] == (2 * k, outcomes[2 * k]->Ok_0) by {
            if k < successes(front).len() {
                assert(front[2 * k] == outcomes[2 * k]);
            }
        }
    }
}

/// Where any leg failed, an all-or-nothing batch fails and yields no value,
/// however many legs succeeded.
pub proof fn lemma_one_failure_fails_all<T>(
    outcomes: Seq<Result<T, Error>>,
    failed: int,
    result: Result<Seq<T>, Error>,
)
    requires
        0 <= failed < outcomes.len(),
        outcomes[failed] is Err,
        joins(outcomes, result),
    ensures
        result is Err,
{
    if result is Ok {
        assert(outcomes[failed] == Ok::<T, Error>(result->Ok_0[failed]));
    }
}

/// Where every leg succeeded, an all-or-nothing batch yields all their
/// values.
pub proof fn lemma_no_failure_joins_all<T>(
    outcomes: Seq<Result<T, Error>>,
    result: Result<Seq<T>, Error>,
)
    requires
        forall|i: int| 0 <= i < outcomes.len() ==> (#[trigger] outcomes[i]) is Ok,
        joins(outcomes, result),
    ensures
        result is Ok,
{
}

} // verus!
