//! The pipeline driver: it initializes the extractors, then hands each
//! triplet of the write log to every extractor, in the order of the log,
//! until no triplet is waiting.

use crate::db::{triplet_view, Attribute, Entity, Triplet, Value, WriteLogReceiver};
use crate::extractor::{Call, Extractor, ExtractorError};
use crate::handle::Handle;
use vstd::prelude::*;

verus! {

/// The count of failures after one more outcome: one more where the outcome
/// is an error. The count stops at the largest number that it can hold.
pub fn tally(failures: usize, outcome: &Result<(), ExtractorError>) -> (total: usize)
    ensures
        total == if outcome is Err && failures < usize::MAX {
            failures + 1
        } else {
            failures as int
        },
{
    match outcome {
        Ok(_) => failures,
        Err(_) => if failures < usize::MAX {
            failures + 1
        } else {
            failures
        },
    }
}

/// What the dispatch of a list of triplets enters in the journal of the
/// extractor at place `k` of `n`, if the dispatch begins at `clock`: one call
/// of `entry_added` for each triplet, in the order of the list; the call for
/// the triplet at `j` begins when the `j` rounds before it and the `k`
/// extractors before this one have had their turn.
pub open spec fn dispatches(k: int, n: nat, clock: nat, events: Seq<Triplet>) -> Seq<(nat, Call)> {
    Seq::new(events.len(), |j: int| ((clock + j * n + k) as nat, Call::EntryAdded(events[j])))
}

/// The registered extractors and the reading end of the write log.
pub struct Pipeline {
    extractors: Vec<Box<dyn Extractor>>,
    write_log: WriteLogReceiver,
    failures: usize,
}

impl Pipeline {
    /// The number of registered extractors.
    pub closed spec fn registered(&self) -> nat {
        self.extractors@.len()
    }

    /// The journal of the extractor at place `k` of the registration: the
    /// callbacks that were made on it.
    pub closed spec fn journal(&self, k: int) -> Seq<(nat, Call)> {
        self.extractors@[k].journal()
    }

    /// How many triplets were taken from the write log.
    pub closed spec fn received(&self) -> nat {
        self.write_log.received()
    }

    /// How many callbacks have failed, as far as the count can hold it.
    pub closed spec fn failed(&self) -> nat {
        self.failures as nat
    }

    /// A pipeline of the extractors, in the order of registration.
    pub fn new(write_log: WriteLogReceiver, extractors: Vec<Box<dyn Extractor>>) -> (pipeline: Self)
        ensures
            pipeline.registered() == extractors@.len(),
            pipeline.received() == write_log.received(),
            pipeline.failed() == 0,
            forall|k: int|
                0 <= k < extractors@.len() ==> #[trigger] pipeline.journal(k)
                    == extractors@[k].journal(),
    {
        Pipeline { extractors, write_log, failures: 0 }
    }

    /// The extractors, given back.
    pub fn into_extractors(self) -> (extractors: Vec<Box<dyn Extractor>>)
        ensures
            extractors@.len() == self.registered(),
            forall|k: int|
                0 <= k < extractors@.len() ==> #[trigger] extractors@[k].journal() == self.journal(k),
    {
        self.extractors
    }

    /// How many callbacks have failed.
    pub fn failures(&self) -> (count: usize)
        ensures
            count == self.failed(),
    {
        self.failures
    }

    /// Whether every triplet written so far was taken from the write log.
    pub fn quiescent(&self, handle: &Handle) -> (quiescent: bool)
        ensures
            quiescent == (self.received() >= handle@.written.len()),
    {
        self.write_log.caught_up(handle.db())
    }

    /// Calls `init` on every extractor, once, in the order of registration. A
    /// failure of one does not keep the others from their turn.
    pub fn init(&mut self, handle: &mut Handle)
        ensures
            forall|k: int|
                0 <= k < old(self).registered() ==> #[trigger] final(self).journal(k) == old(
                    self,
                ).journal(k).push(((old(handle).clock() + k) as nat, Call::Init)),
            final(handle).clock() == old(handle).clock() + old(self).registered(),
            old(self).failed() <= final(self).failed() <= old(self).failed() + old(self).registered(),
            final(self).registered() == old(self).registered(),
            final(self).received() == old(self).received(),
            old(handle)@.written.is_prefix_of(final(handle)@.written),
            old(handle).wf() ==> final(handle).wf(),
    {
        let n = self.extractors.len();
        let mut i: usize = 0;
        while i < n
            invariant
                i <= n,
                n == self.extractors.len(),
                n == old(self).registered(),
                forall|k: int|
                    0 <= k < i ==> #[trigger] self.journal(k) == old(self).journal(k).push(
                        ((old(handle).clock() + k) as nat, Call::Init),
                    ),
                forall|k: int| i <= k < n ==> #[trigger] self.journal(k) == old(self).journal(k),
                handle.clock() == old(handle).clock() + i,
                old(self).failed() <= self.failed() <= old(self).failed() + i,
                self.received() == old(self).received(),
                old(handle)@.written.is_prefix_of(handle@.written),
                old(handle).wf() ==> handle.wf(),
            decreases n - i,
        {
            let ghost was = *self;
            let ghost clock = handle.clock();
            let outcome = self.extractors[i].init(handle);
            let ghost called = *self;
            self.failures = tally(self.failures, &outcome);
            proof {
                assert(called.extractors@.len() == n);
                assert(called.extractors@[i as int].journal() == was.journal(i as int).push(
                    (clock, Call::Init),
                ));
                assert forall|k: int| 0 <= k < n implies #[trigger] self.journal(k) == if k == i {
                    called.extractors@[k].journal()
                } else {
                    was.journal(k)
                } by {
                    assert(self.extractors@[k] == called.extractors@[k]);
                    if k != i {
                        assert(called.extractors@[k] == was.extractors@[k]);
                    }
                }
            }
            i += 1;
        }
    }

    /// Hands the triplet to every extractor, in the order of registration;
    /// each completes before the next starts. A failure of one does not keep
    /// the others from their turn.
    fn dispatch(&mut self, handle: &mut Handle, entity: &Entity, attribute: &Attribute, value: &Value)
        ensures
            forall|k: int|
                0 <= k < old(self).registered() ==> #[trigger] final(self).journal(k) == old(
                    self,
                ).journal(k).push(
                    (
                        (old(handle).clock() + k) as nat,
                        Call::EntryAdded((entity@, attribute@, value@)),
                    ),
                ),
            final(handle).clock() == old(handle).clock() + old(self).registered(),
            old(self).failed() <= final(self).failed() <= old(self).failed() + old(self).registered(),
            final(self).registered() == old(self).registered(),
            final(self).received() == old(self).received(),
            old(handle)@.written.is_prefix_of(final(handle)@.written),
            old(handle).wf() ==> final(handle).wf(),
    {
        let n = self.extractors.len();
        let mut i: usize = 0;
        while i < n
            invariant
                i <= n,
                n == self.extractors.len(),
                n == old(self).registered(),
                forall|k: int|
                    0 <= k < i ==> #[trigger] self.journal(k) == old(self).journal(k).push(
                        (
                            (old(handle).clock() + k) as nat,
                            Call::EntryAdded((entity@, attribute@, value@)),
                        ),
                    ),
                forall|k: int| i <= k < n ==> #[trigger] self.journal(k) == old(self).journal(k),
                handle.clock() == old(handle).clock() + i,
                old(self).failed() <= self.failed() <= old(self).failed() + i,
                self.received() == old(self).received(),
                old(handle)@.written.is_prefix_of(handle@.written),
                old(handle).wf() ==> handle.wf(),
            decreases n - i,
        {
            let ghost was = *self;
            let ghost clock = handle.clock();
            let outcome = self.extractors[i].entry_added(handle, entity, attribute, value);
            let ghost called = *self;
            self.failures = tally(self.failures, &outcome);
            proof {
                assert(called.extractors@.len() == n);
                assert(called.extractors@[i as int].journal() == was.journal(i as int).push(
                    (clock, Call::EntryAdded((entity@, attribute@, value@))),
                ));
                assert forall|k: int| 0 <= k < n implies #[trigger] self.journal(k) == if k == i {
                    called.extractors@[k].journal()
                } else {
                    was.journal(k)
                } by {
                    assert(self.extractors@[k] == called.extractors@[k]);
                    if k != i {
                        assert(called.extractors@[k] == was.extractors@[k]);
                    }
                }
            }
            i += 1;
        }
    }

    /// Takes the next triplet from the write log, if one is waiting, and
    /// hands it to every extractor. Returns the triplet, or nothing where none
    /// was waiting: then the pipeline is quiescent, and nothing has changed.
    pub fn step(&mut self, handle: &mut Handle) -> (event: Option<(Entity, Attribute, Value)>)
        ensures
            final(self).registered() == old(self).registered(),
            old(self).failed() <= final(self).failed() <= old(self).failed() + old(self).registered(),
            old(handle)@.written.is_prefix_of(final(handle)@.written),
            old(handle).wf() ==> final(handle).wf(),
            match event {
                Some(triplet) => {
                    &&& old(self).received() < old(handle)@.written.len()
                    &&& triplet_view(triplet) == old(handle)@.written[old(self).received() as int]
                    &&& final(self).received() == old(self).received() + 1
                    &&& final(self).received() <= usize::MAX
                    &&& forall|k: int|
                        0 <= k < old(self).registered() ==> #[trigger] final(self).journal(k) == old(
                            self,
                        ).journal(k).push(
                            (
                                (old(handle).clock() + k) as nat,
                                Call::EntryAdded(triplet_view(triplet)),
                            ),
                        )
                    &&& final(handle).clock() == old(handle).clock() + old(self).registered()
                },
                None => {
                    &&& old(self).received() >= old(handle)@.written.len()
                    &&& final(self).received() == old(self).received()
                    &&& forall|k: int|
                        0 <= k < old(self).registered() ==> #[trigger] final(self).journal(k) == old(
                            self,
                        ).journal(k)
                    &&& final(self).failed() == old(self).failed()
                    &&& final(handle)@ == old(handle)@
                    &&& final(handle).clock() == old(handle).clock()
                },
            },
    {
        match self.write_log.recv(handle.db()) {
            Some(event) => {
                self.dispatch(handle, &event.0, &event.1, &event.2);
                Some(event)
            },
            None => None,
        }
    }

    /// Dispatches the waiting triplets one after the other, in the order in
    /// which they were written, those included that the extractors insert on
    /// the way, until none is waiting. Returns how many were dispatched.
    ///
    /// Every extractor is handed every triplet that was waiting or came to
    /// wait, once: round after round, and within a round in the order of
    /// registration.
    pub fn drain(&mut self, handle: &mut Handle) -> (count: usize)
        ensures
            final(self).received() == old(self).received() + count,
            final(self).received() >= final(handle)@.written.len(),
            old(self).received() <= old(handle)@.written.len() ==> {
                &&& final(self).received() == final(handle)@.written.len()
                &&& forall|k: int|
                    0 <= k < old(self).registered() ==> #[trigger] final(self).journal(k) == old(
                        self,
                    ).journal(k) + dispatches(
                        k,
                        old(self).registered(),
                        old(handle).clock(),
                        final(handle)@.written.subrange(
                            old(self).received() as int,
                            final(handle)@.written.len() as int,
                        ),
                    )
            },
            final(handle).clock() == old(handle).clock() + count * old(self).registered(),
            final(self).registered() == old(self).registered(),
            final(self).failed() >= old(self).failed(),
            old(handle)@.written.is_prefix_of(final(handle)@.written),
            old(handle).wf() ==> final(handle).wf(),
    {
        let mut count: usize = 0;
        let mut quiescent = false;
        let ghost n = self.registered();
        let ghost start = self.received() as int;
        let ghost began = handle.clock();
        let ghost fits = self.received() <= handle@.written.len();
        proof {
            self.write_log.lemma_received_bounded();
            assert(count * n == 0) by (nonlinear_arith)
                requires
                    count == 0,
            ;
            if fits {
                assert forall|k: int| 0 <= k < n implies #[trigger] self.journal(k) == old(
                    self,
                ).journal(k) + dispatches(k, n, began, handle@.written.subrange(start, start)) by {
                    assert(dispatches(k, n, began, handle@.written.subrange(start, start))
                        =~= Seq::<(nat, Call)>::empty());
                    assert(self.journal(k) + Seq::<(nat, Call)>::empty() =~= self.journal(k));
                }
            }
        }
        while !quiescent
            invariant
                n == old(self).registered(),
                start == old(self).received(),
                began == old(handle).clock(),
                fits == (old(self).received() <= old(handle)@.written.len()),
                self.registered() == n,
                self.received() == start + count,
                quiescent || self.received() <= usize::MAX,
                quiescent ==> self.received() >= handle@.written.len(),
                fits ==> self.received() <= handle@.written.len(),
                fits ==> forall|k: int|
                    0 <= k < n ==> #[trigger] self.journal(k) == old(self).journal(k) + dispatches(
                        k,
                        n,
                        began,
                        handle@.written.subrange(start, self.received() as int),
                    ),
                handle.clock() == began + count * n,
                self.failed() >= old(self).failed(),
                old(handle)@.written.is_prefix_of(handle@.written),
                old(handle).wf() ==> handle.wf(),
            decreases usize::MAX - self.received(), (if quiescent { 0int } else { 1int }),
        {
            let ghost before = handle@.written;
            let ghost at = self.received() as int;
            let ghost clock = handle.clock();
            let ghost journals = Seq::new(n, |k: int| self.journal(k));
            match self.step(handle) {
                Some(event) => {
                    proof {
                        assert((count + 1) * n == count * n + n) by (nonlinear_arith);
                        if fits {
                            let after = handle@.written;
                            assert forall|k: int| 0 <= k < n implies #[trigger] self.journal(k) == old(
                                self,
                            ).journal(k) + dispatches(k, n, began, after.subrange(start, at + 1)) by {
                                let earlier = dispatches(k, n, began, before.subrange(start, at));
                                let now = dispatches(k, n, began, after.subrange(start, at + 1));
                                assert(journals[k] == old(self).journal(k) + earlier);
                                assert(now =~= earlier.push(
                                    ((clock + k) as nat, Call::EntryAdded(triplet_view(event))),
                                ));
                                assert((old(self).journal(k) + earlier).push(
                                    ((clock + k) as nat, Call::EntryAdded(triplet_view(event))),
                                ) =~= old(self).journal(k) + now);
                            }
                        }
                    }
                    count += 1;
                },
                None => {
                    quiescent = true;
                },
            }
        }
        count
    }
}

/// Runs the pipeline to quiescence: calls `init` on every extractor, once
/// and in the order of registration, then dispatches the triplets of the
/// write log, in the order in which they were written, until none is
/// waiting. Failures of callbacks are counted and stop nothing.
///
/// With the reading end of the handle's own database, every extractor has at
/// the end been handed every triplet that the reading end had not handed
/// out, those included that were inserted on the way: each once, in the
/// order of writing, round after round.
pub fn run_extractors(
    write_log: WriteLogReceiver,
    handle: &mut Handle,
    extractors: Vec<Box<dyn Extractor>>,
) -> (pipeline: Pipeline)
    ensures
        pipeline.registered() == extractors@.len(),
        pipeline.received() >= final(handle)@.written.len(),
        write_log.received() <= old(handle)@.written.len() ==> {
            &&& pipeline.received() == final(handle)@.written.len()
            &&& forall|k: int|
                0 <= k < extractors@.len() ==> #[trigger] pipeline.journal(k)
                    == extractors@[k].journal().push(((old(handle).clock() + k) as nat, Call::Init))
                    + dispatches(
                    k,
                    extractors@.len(),
                    old(handle).clock() + extractors@.len(),
                    final(handle)@.written.subrange(
                        write_log.received() as int,
                        final(handle)@.written.len() as int,
                    ),
                )
        },
        final(handle).clock() == old(handle).clock() + extractors@.len() + (pipeline.received()
            - write_log.received()) * extractors@.len(),
        old(handle)@.written.is_prefix_of(final(handle)@.written),
        old(handle).wf() ==> final(handle).wf(),
{
    let mut pipeline = Pipeline::new(write_log, extractors);
    pipeline.init(handle);
    let _ = pipeline.drain(handle);
    pipeline
}

} // verus!
