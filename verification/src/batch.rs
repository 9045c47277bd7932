//! Work on every file of a directory or of a repository: first the files are
//! listed, then each is transferred in turn, whatever became of the others.

use crate::error::SyncError;
use crate::path::texts;
use vstd::prelude::*;

verus! {

/// How far the work has come.
#[derive(Clone, Copy, Debug, PartialEq, Eq, Structural)]
pub enum Phase {
    /// Nothing was asked for yet.
    Start,
    /// The list of files was asked for.
    Listing,
    /// The files are being transferred, one at a time.
    Transferring,
    /// Nothing is left to do.
    Done,
}

/// What the driver is to do next.
#[derive(Debug, PartialEq, Eq)]
pub enum Task {
    /// Fetch the list of files.
    List,
    /// Transfer the file at this path.
    Transfer(String),
    /// Stop: the outcomes are complete.
    Finish,
}

/// A `Task` as plain values.
pub enum TaskView {
    List,
    Transfer(Seq<char>),
    Finish,
}

impl View for Task {
    type V = TaskView;

    open spec fn view(&self) -> TaskView {
        match *self {
            Task::List => TaskView::List,
            Task::Transfer(path) => TaskView::Transfer(path@),
            Task::Finish => TaskView::Finish,
        }
    }
}

/// What the driver reports back. `R` is what a transfer yields.
#[derive(Debug, PartialEq, Eq)]
pub enum Event<R> {
    /// The work begins.
    Begin,
    /// The list of files arrived, or could not be had.
    Listed(Result<Vec<String>, SyncError>),
    /// The transfer that was asked for last ended.
    Transferred(Result<R, SyncError>),
}

/// An `Event` as plain values.
pub enum EventView<R> {
    Begin,
    Listed(Result<Seq<Seq<char>>, SyncError>),
    Transferred(Result<R, SyncError>),
}

impl<R> View for Event<R> {
    type V = EventView<R>;

    open spec fn view(&self) -> EventView<R> {
        match *self {
            Event::Begin => EventView::Begin,
            Event::Listed(Ok(paths)) => EventView::Listed(Ok(texts(paths@))),
            Event::Listed(Err(e)) => EventView::Listed(Err(e)),
            Event::Transferred(outcome) => EventView::Transferred(outcome),
        }
    }
}

/// The state of the work on a list of files.
pub struct Batch<R> {
    phase: Phase,
    targets: Vec<String>,
    outcomes: Vec<Result<R, SyncError>>,
    unlisted: Option<SyncError>,
}

/// A `Batch` as plain values.
pub struct BatchView<R> {
    pub phase: Phase,
    /// The files to transfer, in the order in which they were listed.
    pub targets: Seq<Seq<char>>,
    /// What became of the transfers made so far, in the order of `targets`.
    pub outcomes: Seq<Result<R, SyncError>>,
    /// Why there is no list, where it could not be had.
    pub unlisted: Option<SyncError>,
}

/// The state before anything was asked for.
pub open spec fn initial<R>() -> BatchView<R> {
    BatchView { phase: Phase::Start, targets: seq![], outcomes: seq![], unlisted: None }
}

/// What the state `s` waits for.
pub open spec fn awaited<R>(s: BatchView<R>) -> TaskView {
    match s.phase {
        Phase::Start | Phase::Listing => TaskView::List,
        Phase::Transferring => TaskView::Transfer(s.targets[s.outcomes.len() as int]),
        Phase::Done => TaskView::Finish,
    }
}

/// The state that follows `s` on the event `e`. An event that `s` does not
/// wait for changes nothing.
pub open spec fn next<R>(s: BatchView<R>, e: EventView<R>) -> BatchView<R> {
    match (s.phase, e) {
        (Phase::Start, EventView::Begin) => BatchView { phase: Phase::Listing, ..s },
        (Phase::Start, EventView::Listed(Ok(targets)))
        | (Phase::Listing, EventView::Listed(Ok(targets))) => BatchView {
            phase: if targets.len() == 0 {
                Phase::Done
            } else {
                Phase::Transferring
            },
            targets,
            ..s
        },
        (Phase::Start, EventView::Listed(Err(e)))
        | (Phase::Listing, EventView::Listed(Err(e))) => BatchView {
            phase: Phase::Done,
            unlisted: Some(e),
            ..s
        },
        (Phase::Transferring, EventView::Transferred(outcome)) => BatchView {
            phase: if s.outcomes.len() + 1 == s.targets.len() {
                Phase::Done
            } else {
                Phase::Transferring
            },
            outcomes: s.outcomes.push(outcome),
            ..s
        },
        _ => s,
    }
}

/// Whether `s` is a state that the work can be in: while files are being
/// transferred one of them is still due, and at the end each has its outcome.
pub open spec fn coherent<R>(s: BatchView<R>) -> bool {
    match s.phase {
        Phase::Start | Phase::Listing => s.targets.len() == 0 && s.outcomes.len() == 0
            && s.unlisted is None,
        Phase::Transferring => s.outcomes.len() < s.targets.len() && s.unlisted is None,
        Phase::Done => s.outcomes.len() == s.targets.len() && (s.unlisted is Some
            ==> s.targets.len() == 0),
    }
}

/// The state after the transfers that `s` waits for ended as `outcomes` say,
/// one after another.
pub open spec fn after<R>(s: BatchView<R>, outcomes: Seq<Result<R, SyncError>>) -> BatchView<R>
    decreases outcomes.len(),
{
    if outcomes.len() == 0 {
        s
    } else {
        after(next(s, EventView::Transferred(outcomes[0])), outcomes.drop_first())
    }
}

/// What was waited for before each of the transfers that ended as `outcomes`
/// say, starting in the state `s`.
pub open spec fn asked<R>(s: BatchView<R>, outcomes: Seq<Result<R, SyncError>>) -> Seq<TaskView>
    decreases outcomes.len(),
{
    if outcomes.len() == 0 {
        seq![]
    } else {
        seq![awaited(s)] + asked(
            next(s, EventView::Transferred(outcomes[0])),
            outcomes.drop_first(),
        )
    }
}

/// Every state that follows a coherent one is coherent.
pub proof fn lemma_next_coherent<R>(s: BatchView<R>, e: EventView<R>)
    requires
        coherent(s),
    ensures
        coherent(next(s, e)),
{
}

proof fn lemma_rest_attempted<R>(s: BatchView<R>, rest: Seq<Result<R, SyncError>>)
    requires
        coherent(s),
        s.phase is Transferring || s.phase is Done,
        s.unlisted is None,
        s.outcomes.len() + rest.len() == s.targets.len(),
    ensures
        after(s, rest).phase is Done,
        after(s, rest).targets == s.targets,
        after(s, rest).outcomes == s.outcomes + rest,
        after(s, rest).unlisted is None,
        asked(s, rest) == s.targets.skip(s.outcomes.len() as int).map_values(
            |t: Seq<char>| TaskView::Transfer(t),
        ),
    decreases rest.len(),
{
    let due = s.targets.skip(s.outcomes.len() as int).map_values(
        |t: Seq<char>| TaskView::Transfer(t),
    );
    if rest.len() == 0 {
        assert(s.outcomes + rest =~= s.outcomes);
        assert(asked(s, rest) =~= due);
    } else {
        let t = next(s, EventView::Transferred(rest[0]));
        lemma_rest_attempted(t, rest.drop_first());
        assert(t.outcomes + rest.drop_first() =~= s.outcomes + rest);
        let later = t.targets.skip(t.outcomes.len() as int).map_values(
            |t: Seq<char>| TaskView::Transfer(t),
        );
        assert(seq![awaited(s)] + later =~= due);
    }
}

/// Once the files are listed, each of them is attempted, in the order of the
/// list and whatever became of those before it; the work ends when the last
/// has ended, and then holds one outcome for each file, each as it was
/// reported.
pub proof fn lemma_every_target_attempted<R>(
    targets: Seq<Seq<char>>,
    outcomes: Seq<Result<R, SyncError>>,
)
    requires
        outcomes.len() == targets.len(),
    ensures
        ({
            let listed = next(
                next(initial::<R>(), EventView::Begin),
                EventView::Listed(Ok(targets)),
            );
            let end = after(listed, outcomes);
            &&& asked(listed, outcomes) == targets.map_values(|t: Seq<char>| TaskView::Transfer(t))
            &&& end.phase is Done
            &&& end.targets == targets
            &&& end.outcomes == outcomes
            &&& end.unlisted is None
        }),
{
    let listed = next(next(initial::<R>(), EventView::Begin), EventView::Listed(Ok(targets)));
    lemma_rest_attempted(listed, outcomes);
    assert(listed.outcomes + outcomes =~= outcomes);
    assert(targets.skip(0) =~= targets);
}

/// Where the list cannot be had the work ends at once, with the reason and
/// without any transfer.
pub proof fn lemma_unlisted_ends<R>(e: SyncError)
    ensures
        ({
            let end = next(
                next(initial::<R>(), EventView::Begin),
                EventView::Listed(Err::<Seq<Seq<char>>, SyncError>(e)),
            );
            &&& end.phase is Done
            &&& end.unlisted == Some(e)
            &&& end.outcomes.len() == 0
            &&& awaited(end) == TaskView::Finish
        }),
{
}

impl<R> Batch<R> {
    #[verifier::type_invariant]
    spec fn well_formed(self) -> bool {
        coherent(self@)
    }

    /// What the state holds, as plain values.
    pub closed spec fn view(&self) -> BatchView<R> {
        BatchView {
            phase: self.phase,
            targets: texts(self.targets@),
            outcomes: self.outcomes@,
            unlisted: self.unlisted,
        }
    }

    /// The state before anything was asked for.
    pub fn new() -> (r: Batch<R>)
        ensures
            r@ == initial::<R>(),
    {
        let r = Batch { phase: Phase::Start, targets: Vec::new(), outcomes: Vec::new(), unlisted: None };
        assert(r@.targets =~= initial::<R>().targets);
        assert(r@.outcomes =~= initial::<R>().outcomes);
        r
    }

    /// Takes in what the driver reports and says what to do next: the state
    /// moves as `next` says, and the task is what the new state waits for.
    pub fn step(self, event: Event<R>) -> (r: (Batch<R>, Task))
        ensures
            r.0@ == next(self@, event@),
            r.1@ == awaited(r.0@),
            coherent(r.0@),
    {
        proof {
            use_type_invariant(&self);
        }
        let Batch { phase, targets, outcomes, unlisted } = self;
        let ghost old_view = BatchView {
            phase,
            targets: texts(targets@),
            outcomes: outcomes@,
            unlisted,
        };
        let moved = match (phase, event) {
            (Phase::Start, Event::Begin) => Batch { phase: Phase::Listing, targets, outcomes, unlisted },
            (Phase::Start, Event::Listed(Ok(paths))) | (Phase::Listing, Event::Listed(Ok(paths))) => {
                let phase = if paths.len() == 0 {
                    Phase::Done
                } else {
                    Phase::Transferring
                };
                Batch { phase, targets: paths, outcomes, unlisted }
            },
            (Phase::Start, Event::Listed(Err(e))) | (Phase::Listing, Event::Listed(Err(e))) => Batch {
                phase: Phase::Done,
                targets,
                outcomes,
                unlisted: Some(e),
            },
            (Phase::Transferring, Event::Transferred(outcome)) => {
                let mut outcomes = outcomes;
                outcomes.push(outcome);
                let phase = if outcomes.len() == targets.len() {
                    Phase::Done
                } else {
                    Phase::Transferring
                };
                Batch { phase, targets, outcomes, unlisted }
            },
            (phase, _) => Batch { phase, targets, outcomes, unlisted },
        };
        assert(moved@ == next(old_view, event@));
        let task = match moved.phase {
            Phase::Start | Phase::Listing => Task::List,
            Phase::Transferring => Task::Transfer(moved.targets[moved.outcomes.len()].clone()),
            Phase::Done => Task::Finish,
        };
        (moved, task)
    }

    pub fn phase(&self) -> (r: Phase)
        ensures
            r == self@.phase,
    {
        self.phase
    }

    /// The files to transfer, in the order in which they were listed.
    pub fn targets(&self) -> (r: &Vec<String>)
        ensures
            texts(r@) == self@.targets,
    {
        &self.targets
    }

    /// What became of the transfers made so far, in the order of the files.
    pub fn outcomes(&self) -> (r: &Vec<Result<R, SyncError>>)
        ensures
            r@ == self@.outcomes,
    {
        &self.outcomes
    }

    /// Why there is no list, where it could not be had.
    pub fn unlisted(&self) -> (r: Option<SyncError>)
        ensures
            r == self@.unlisted,
    {
        self.unlisted
    }
}

} // verus!
