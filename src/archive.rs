use vstd::prelude::*;

verus! {

/// What the archive producer does when one entry of the tree fails.
#[derive(Debug, Clone, Copy, PartialEq, Eq)]
pub enum TraversalPolicy {
    /// Skip the entry and go on with the rest of the tree.
    ContinueOnError,
    /// Stop the archive at the first failed entry.
    AbortOnError,
}

/// What happened to one step of the walk over the tree.
#[derive(Debug, Clone, Copy, PartialEq, Eq)]
pub enum EntryEvent {
    /// The walk itself failed on an entry.
    WalkFailed,
    /// The entry is a directory: nothing is written for it.
    Directory,
    /// The file could not be opened.
    OpenFailed,
    /// The file was written to the archive.
    Appended,
    /// Writing the file to the archive failed while the reader was there.
    AppendFailed,
    /// The reading end of the pipe is gone: nobody wants the rest.
    ConsumerGone,
}

/// The next thing the producer does.
#[derive(Debug, Clone, Copy, PartialEq, Eq)]
pub enum ProducerAction {
    /// Go on with the next entry.
    Next,
    /// Stop walking at once.
    Stop,
}

/// The decisions of one archive producer.
#[derive(Debug, Clone, Copy, PartialEq, Eq)]
pub struct ArchiveProducer {
    pub policy: TraversalPolicy,
    /// Files written to the archive.
    pub appended: u64,
    /// Entries skipped because they failed.
    pub skipped: u64,
    /// Whether the producer has stopped; it never starts again.
    pub stopped: bool,
    /// Whether the stop came because the reader went away.
    pub consumer_gone: bool,
}

/// `x + 1`, saturated at `u64::MAX`.
pub open spec fn inc(x: u64) -> u64 {
    if x < u64::MAX {
        (x + 1) as u64
    } else {
        x
    }
}

/// The producer after `ev`, and what it does next.
pub open spec fn step_of(p: ArchiveProducer, ev: EntryEvent) -> (ArchiveProducer, ProducerAction) {
    if p.stopped {
        (p, ProducerAction::Stop)
    } else {
        match ev {
            EntryEvent::ConsumerGone => (
                ArchiveProducer { stopped: true, consumer_gone: true, ..p },
                ProducerAction::Stop,
            ),
            EntryEvent::Directory => (p, ProducerAction::Next),
            EntryEvent::Appended => (
                ArchiveProducer { appended: inc(p.appended), ..p },
                ProducerAction::Next,
            ),
            _ => match p.policy {
                TraversalPolicy::ContinueOnError => (
                    ArchiveProducer { skipped: inc(p.skipped), ..p },
                    ProducerAction::Next,
                ),
                TraversalPolicy::AbortOnError => (
                    ArchiveProducer { stopped: true, ..p },
                    ProducerAction::Stop,
                ),
            },
        }
    }
}

/// The producer after each of `evs` in turn.
pub open spec fn run_of(p: ArchiveProducer, evs: Seq<EntryEvent>) -> ArchiveProducer
    decreases evs.len(),
{
    if evs.len() == 0 {
        p
    } else {
        run_of(step_of(p, evs[0]).0, evs.drop_first())
    }
}

impl ArchiveProducer {
    pub fn new(policy: TraversalPolicy) -> (r: ArchiveProducer)
        ensures
            r == (ArchiveProducer {
                policy,
                appended: 0,
                skipped: 0,
                stopped: false,
                consumer_gone: false,
            }),
    {
        ArchiveProducer { policy, appended: 0, skipped: 0, stopped: false, consumer_gone: false }
    }

    /// Takes in what happened to one entry and says what to do next. Once
    /// stopped, the producer answers `Stop` to everything.
    pub fn step(&mut self, ev: EntryEvent) -> (r: ProducerAction)
        ensures
            (*final(self), r) == step_of(*old(self), ev),
    {
        if self.stopped {
            return ProducerAction::Stop;
        }
        match ev {
            EntryEvent::ConsumerGone => {
                self.stopped = true;
                self.consumer_gone = true;
                ProducerAction::Stop
            },
            EntryEvent::Directory => ProducerAction::Next,
            EntryEvent::Appended => {
                self.appended = self.appended.saturating_add(1);
                ProducerAction::Next
            },
            _ => match self.policy {
                TraversalPolicy::ContinueOnError => {
                    self.skipped = self.skipped.saturating_add(1);
                    ProducerAction::Next
                },
                TraversalPolicy::AbortOnError => {
                    self.stopped = true;
                    ProducerAction::Stop
                },
            },
        }
    }

    /// Whether the central directory and end record are to be written once
    /// the walk is over: only when the producer was not stopped.
    pub fn should_finalize(&self) -> (r: bool)
        ensures
            r == !self.stopped,
    {
        !self.stopped
    }
}

/// Once the reader is gone the producer stops at that very step, and no
/// later event makes it go on.
pub proof fn lemma_consumer_gone_stops(p: ArchiveProducer, evs: Seq<EntryEvent>)
    ensures
        step_of(p, EntryEvent::ConsumerGone).1 is Stop,
        step_of(p, EntryEvent::ConsumerGone).0.stopped,
        run_of(step_of(p, EntryEvent::ConsumerGone).0, evs) == step_of(
            p,
            EntryEvent::ConsumerGone,
        ).0,
        forall|i: int|
            0 <= i < evs.len() ==> step_of(
                run_of(step_of(p, EntryEvent::ConsumerGone).0, evs.take(i)),
                #[trigger] evs[i],
            ).1 is Stop,
{
    let q = step_of(p, EntryEvent::ConsumerGone).0;
    lemma_stopped_stays(q, evs);
    assert forall|i: int| 0 <= i < evs.len() implies step_of(
        run_of(q, evs.take(i)),
        #[trigger] evs[i],
    ).1 is Stop by {
        lemma_stopped_stays(q, evs.take(i));
    }
}

/// A stopped producer stays as it is, whatever comes.
pub proof fn lemma_stopped_stays(p: ArchiveProducer, evs: Seq<EntryEvent>)
    requires
        p.stopped,
    ensures
        run_of(p, evs) == p,
    decreases evs.len(),
{
    if evs.len() > 0 {
        lemma_stopped_stays(p, evs.drop_first());
    }
}

/// Under the continue-on-error policy failed entries never stop the walk:
/// only the reader going away does.
pub proof fn lemma_failures_skipped(p: ArchiveProducer, evs: Seq<EntryEvent>)
    requires
        p.policy is ContinueOnError,
        !p.stopped,
        forall|i: int| 0 <= i < evs.len() ==> !(#[trigger] evs[i] is ConsumerGone),
    ensures
        !run_of(p, evs).stopped,
        run_of(p, evs).policy == p.policy,
    decreases evs.len(),
{
    if evs.len() > 0 {
        let q = step_of(p, evs[0]).0;
        assert forall|i: int| 0 <= i < evs.drop_first().len() implies !(
        #[trigger] evs.drop_first()[i] is ConsumerGone) by {
            assert(evs.drop_first()[i] == evs[i + 1]);
        }
        lemma_failures_skipped(q, evs.drop_first());
    }
}

} // verus!
