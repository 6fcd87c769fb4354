//! The decisions of a checkpoint load. The task that talks to the server and
//! the disk reports each thing that happened to `Loader::step` and does what
//! the returned action says.

use crate::checkpoint::{accepted, advanced, chosen, CheckpointProgress, LoadError, RootAnchor};
use vstd::prelude::*;

verus! {

/// What happened outside, as the loading task reports it.
#[derive(Debug, PartialEq, Eq)]
pub enum LoadEvent {
    /// The work asked for was done.
    Completed,
    /// The work asked for failed.
    Failed { cause: String },
    /// The head of the response arrived: its status code and the length of
    /// the body that it declares.
    Response { status: u16, content_length: Option<u64> },
    /// A part of the body arrived.
    Chunk { len: usize },
    /// The body has ended.
    BodyEnded,
    /// The anchors of the snapshot were extracted.
    Extracted { anchors: Vec<RootAnchor> },
}

/// What the loading task is to do next.
#[derive(Debug, PartialEq, Eq)]
pub enum LoadAction {
    /// Send the request, then report `Response` or `Failed`.
    SendRequest,
    /// Create the snapshot file, then report `Completed` or `Failed`.
    CreateFile,
    /// Read the next part of the body, then report `Chunk`, `BodyEnded` or
    /// `Failed`.
    ReadChunk,
    /// Write the part in hand to the file, then report `Completed` or
    /// `Failed`.
    WriteChunk,
    /// Hand the progress to the observer, whether or not it takes it; then
    /// go on as for `ReadChunk`.
    Report(CheckpointProgress),
    /// Flush the file, then report `Completed` or `Failed`.
    Flush,
    /// Open the snapshot and extract its anchors away from the tasks that
    /// wait for the network, then report `Extracted` or `Failed`.
    Extract,
    /// Remove the file that the extraction worked in, then report
    /// `Completed` or `Failed`.
    RemoveTemp,
    /// Hand the outcome to the caller; the load is over.
    Finish(Result<RootAnchor, LoadError>),
    /// The event does not fit: nothing has changed, nothing is to be done.
    Refuse,
}

/// How far a load has come.
#[derive(Debug, Clone, Copy, PartialEq, Eq, Structural)]
pub enum LoadPhase {
    /// The data directory is being created.
    Preparing,
    /// The request was sent.
    Requesting,
    /// The snapshot file is being created.
    CreatingFile,
    /// The next part of the body is awaited.
    Receiving,
    /// A part of so many bytes is being written.
    Writing { len: usize },
    /// The file is being flushed.
    Flushing,
    /// The anchors are being extracted.
    Extracting,
    /// The file that the extraction worked in is being removed.
    Cleaning,
    /// The load is over.
    Done,
}

/// The state of a load.
pub struct LoadState {
    pub phase: LoadPhase,
    /// The bytes written so far and the declared length.
    pub progress: CheckpointProgress,
    /// Whether an observer wants to hear of the progress.
    pub observed: bool,
    /// What the extraction led to, once it is over.
    pub outcome: Option<Result<RootAnchor, LoadError>>,
}

/// The states that a load can be in: a part that is being written fits into
/// the count, and once the extraction is over its outcome is known.
pub open spec fn valid(s: LoadState) -> bool {
    &&& s.phase matches LoadPhase::Writing { len } ==> s.progress.downloaded + len <= u64::MAX
    &&& s.phase is Cleaning ==> s.outcome is Some
}

/// The state in which a load begins: the data directory is being created.
pub open spec fn initial(observed: bool) -> LoadState {
    LoadState {
        phase: LoadPhase::Preparing,
        progress: CheckpointProgress { downloaded: 0, total: 0 },
        observed,
        outcome: None,
    }
}

/// The error that a failure means in a phase, for the phases before the
/// extraction.
pub open spec fn failure(phase: LoadPhase, cause: String) -> LoadError {
    match phase {
        LoadPhase::Preparing => LoadError::DataDir(cause),
        LoadPhase::Requesting => LoadError::Request(cause),
        LoadPhase::CreatingFile => LoadError::CreateFile(cause),
        LoadPhase::Receiving => LoadError::ReadChunk(cause),
        LoadPhase::Writing { len } => LoadError::WriteChunk(cause),
        LoadPhase::Flushing => LoadError::Flush(cause),
        _ => LoadError::Store(cause),
    }
}

/// The state and the action that follow from a state and an event.
///
/// Before the extraction every failure ends the load with its error. A
/// response is taken if its status is a success and it declares a length.
/// Each part of the body is written, then counted, then reported where an
/// observer listens. After the body the file is flushed and the anchors are
/// extracted. However the extraction ends, the file it worked in is removed
/// before the outcome is handed over. An event that the phase does not wait
/// for is refused, and so is a part that the count cannot hold.
pub open spec fn next(s: LoadState, e: LoadEvent) -> (LoadState, LoadAction) {
    match (s.phase, e) {
        (LoadPhase::Done, _) => (s, LoadAction::Refuse),
        (LoadPhase::Cleaning, LoadEvent::Completed) | (LoadPhase::Cleaning, LoadEvent::Failed { .. }) => (
            LoadState { phase: LoadPhase::Done, outcome: None, ..s },
            match s.outcome {
                Some(result) => LoadAction::Finish(result),
                None => LoadAction::Refuse,
            },
        ),
        (LoadPhase::Cleaning, _) => (s, LoadAction::Refuse),
        (LoadPhase::Extracting, LoadEvent::Extracted { anchors }) => (
            LoadState { phase: LoadPhase::Cleaning, outcome: Some(chosen(anchors@)), ..s },
            LoadAction::RemoveTemp,
        ),
        (LoadPhase::Extracting, LoadEvent::Failed { cause }) => (
            LoadState { phase: LoadPhase::Cleaning, outcome: Some(Err(LoadError::Store(cause))), ..s },
            LoadAction::RemoveTemp,
        ),
        (_, LoadEvent::Failed { cause }) => (
            LoadState { phase: LoadPhase::Done, ..s },
            LoadAction::Finish(Err(failure(s.phase, cause))),
        ),
        (LoadPhase::Preparing, LoadEvent::Completed) => (
            LoadState { phase: LoadPhase::Requesting, ..s },
            LoadAction::SendRequest,
        ),
        (LoadPhase::Requesting, LoadEvent::Response { status, content_length }) => match accepted(
            status,
            content_length,
        ) {
            Ok(progress) => (
                LoadState { phase: LoadPhase::CreatingFile, progress, ..s },
                LoadAction::CreateFile,
            ),
            Err(error) => (LoadState { phase: LoadPhase::Done, ..s }, LoadAction::Finish(Err(error))),
        },
        (LoadPhase::CreatingFile, LoadEvent::Completed) => (
            LoadState { phase: LoadPhase::Receiving, ..s },
            LoadAction::ReadChunk,
        ),
        (LoadPhase::Receiving, LoadEvent::Chunk { len }) => if s.progress.downloaded + len
            <= u64::MAX {
            (LoadState { phase: LoadPhase::Writing { len }, ..s }, LoadAction::WriteChunk)
        } else {
            (s, LoadAction::Refuse)
        },
        (LoadPhase::Receiving, LoadEvent::BodyEnded) => (
            LoadState { phase: LoadPhase::Flushing, ..s },
            LoadAction::Flush,
        ),
        (LoadPhase::Writing { len }, LoadEvent::Completed) => {
            let progress = advanced(s.progress, len as nat);
            (
                LoadState { phase: LoadPhase::Receiving, progress, ..s },
                if s.observed {
                    LoadAction::Report(progress)
                } else {
                    LoadAction::ReadChunk
                },
            )
        },
        (LoadPhase::Flushing, LoadEvent::Completed) => (
            LoadState { phase: LoadPhase::Extracting, ..s },
            LoadAction::Extract,
        ),
        _ => (s, LoadAction::Refuse),
    }
}

/// The decisions of one checkpoint load.
#[derive(Debug)]
pub struct Loader {
    phase: LoadPhase,
    progress: CheckpointProgress,
    observed: bool,
    outcome: Option<Result<RootAnchor, LoadError>>,
}

impl View for Loader {
    type V = LoadState;

    closed spec fn view(&self) -> LoadState {
        LoadState {
            phase: self.phase,
            progress: self.progress,
            observed: self.observed,
            outcome: self.outcome,
        }
    }
}

impl Loader {
    /// A load is always in a state that `valid` allows.
    #[verifier::type_invariant]
    spec fn well_formed(self) -> bool {
        valid(self@)
    }

    /// A load that begins: its task creates the data directory and reports
    /// `Completed` or `Failed`. `observed` says whether an observer wants
    /// to hear of the progress.
    pub fn new(observed: bool) -> (loader: Self)
        ensures
            loader@ == initial(observed),
    {
        Loader {
            phase: LoadPhase::Preparing,
            progress: CheckpointProgress { downloaded: 0, total: 0 },
            observed,
            outcome: None,
        }
    }

    /// The phase of the load.
    pub fn phase(&self) -> (phase: LoadPhase)
        ensures
            phase == self@.phase,
            valid(self@),
    {
        proof {
            use_type_invariant(self);
        }
        self.phase
    }

    /// The bytes written so far and the declared length.
    pub fn progress(&self) -> (progress: CheckpointProgress)
        ensures
            progress == self@.progress,
    {
        self.progress
    }

    /// Takes in one event and says what the loading task is to do next.
    pub fn step(&mut self, event: LoadEvent) -> (action: LoadAction)
        ensures
            (final(self)@, action) == next(old(self)@, event),
            valid(old(self)@),
            valid(final(self)@),
    {
        proof {
            use_type_invariant(&*self);
        }
        let phase = self.phase;
        match phase {
            LoadPhase::Done => LoadAction::Refuse,
            LoadPhase::Cleaning => match event {
                LoadEvent::Completed | LoadEvent::Failed { .. } => {
                    self.phase = LoadPhase::Done;
                    let mut outcome: Option<Result<RootAnchor, LoadError>> = None;
                    std::mem::swap(&mut outcome, &mut self.outcome);
                    match outcome {
                        Some(result) => LoadAction::Finish(result),
                        None => LoadAction::Refuse,
                    }
                },
                _ => LoadAction::Refuse,
            },
            LoadPhase::Extracting => match event {
                LoadEvent::Extracted { anchors } => {
                    let outcome = if anchors.len() == 0 {
                        Err(LoadError::NoAnchors)
                    } else {
                        Ok(anchors[0])
                    };
                    self.outcome = Some(outcome);
                    self.phase = LoadPhase::Cleaning;
                    LoadAction::RemoveTemp
                },
                LoadEvent::Failed { cause } => {
                    self.outcome = Some(Err(LoadError::Store(cause)));
                    self.phase = LoadPhase::Cleaning;
                    LoadAction::RemoveTemp
                },
                _ => LoadAction::Refuse,
            },
            LoadPhase::Preparing => match event {
                LoadEvent::Failed { cause } => {
                    self.phase = LoadPhase::Done;
                    LoadAction::Finish(Err(LoadError::DataDir(cause)))
                },
                LoadEvent::Completed => {
                    self.phase = LoadPhase::Requesting;
                    LoadAction::SendRequest
                },
                _ => LoadAction::Refuse,
            },
            LoadPhase::Requesting => match event {
                LoadEvent::Failed { cause } => {
                    self.phase = LoadPhase::Done;
                    LoadAction::Finish(Err(LoadError::Request(cause)))
                },
                LoadEvent::Response { status, content_length } => {
                    if status < 200 || status >= 300 {
                        self.phase = LoadPhase::Done;
                        return LoadAction::Finish(Err(LoadError::Status(status)));
                    }
                    match content_length {
                        None => {
                            self.phase = LoadPhase::Done;
                            LoadAction::Finish(Err(LoadError::MissingLength))
                        },
                        Some(total) => {
                            self.progress = CheckpointProgress { downloaded: 0, total };
                            self.phase = LoadPhase::CreatingFile;
                            LoadAction::CreateFile
                        },
                    }
                },
                _ => LoadAction::Refuse,
            },
            LoadPhase::CreatingFile => match event {
                LoadEvent::Failed { cause } => {
                    self.phase = LoadPhase::Done;
                    LoadAction::Finish(Err(LoadError::CreateFile(cause)))
                },
                LoadEvent::Completed => {
                    self.phase = LoadPhase::Receiving;
                    LoadAction::ReadChunk
                },
                _ => LoadAction::Refuse,
            },
            LoadPhase::Receiving => match event {
                LoadEvent::Failed { cause } => {
                    self.phase = LoadPhase::Done;
                    LoadAction::Finish(Err(LoadError::ReadChunk(cause)))
                },
                LoadEvent::Chunk { len } => {
                    if len as u64 <= u64::MAX - self.progress.downloaded {
                        self.phase = LoadPhase::Writing { len };
                        LoadAction::WriteChunk
                    } else {
                        LoadAction::Refuse
                    }
                },
                LoadEvent::BodyEnded => {
                    self.phase = LoadPhase::Flushing;
                    LoadAction::Flush
                },
                _ => LoadAction::Refuse,
            },
            LoadPhase::Writing { len } => match event {
                LoadEvent::Failed { cause } => {
                    self.phase = LoadPhase::Done;
                    LoadAction::Finish(Err(LoadError::WriteChunk(cause)))
                },
                LoadEvent::Completed => {
                    let progress = CheckpointProgress {
                        downloaded: self.progress.downloaded + len as u64,
                        total: self.progress.total,
                    };
                    self.phase = LoadPhase::Receiving;
                    self.progress = progress;
                    if self.observed {
                        LoadAction::Report(progress)
                    } else {
                        LoadAction::ReadChunk
                    }
                },
                _ => LoadAction::Refuse,
            },
            LoadPhase::Flushing => match event {
                LoadEvent::Failed { cause } => {
                    self.phase = LoadPhase::Done;
                    LoadAction::Finish(Err(LoadError::Flush(cause)))
                },
                LoadEvent::Completed => {
                    self.phase = LoadPhase::Extracting;
                    LoadAction::Extract
                },
                _ => LoadAction::Refuse,
            },
        }
    }
}

/// Every step leads from a state that a load can be in to another.
pub proof fn lemma_step_keeps_valid(s: LoadState, e: LoadEvent)
    requires
        valid(s),
    ensures
        valid(next(s, e).0),
{
}

/// The state after a sequence of events and the actions that answered them.
pub open spec fn run(s: LoadState, events: Seq<LoadEvent>) -> (LoadState, Seq<LoadAction>)
    decreases events.len(),
{
    if events.len() == 0 {
        (s, Seq::empty())
    } else {
        let (mid, actions) = run(s, events.drop_last());
        let (t, action) = next(mid, events.last());
        (t, actions.push(action))
    }
}

/// The bytes that were written to the snapshot file in the course of a run:
/// the lengths of the parts whose writing was completed.
pub open spec fn written(s: LoadState, events: Seq<LoadEvent>) -> nat
    decreases events.len(),
{
    if events.len() == 0 {
        0
    } else {
        let mid = run(s, events.drop_last()).0;
        written(s, events.drop_last()) + (if mid.phase is Writing && events.last() is Completed {
            mid.phase->len as nat
        } else {
            0
        })
    }
}

/// The length that the server declared, as far as a run has learned it: that
/// of the response that was taken.
pub open spec fn declared(s: LoadState, events: Seq<LoadEvent>) -> Option<u64>
    decreases events.len(),
{
    if events.len() == 0 {
        None
    } else {
        let mid = run(s, events.drop_last()).0;
        if mid.phase is Requesting && events.last() is Response && accepted(
            events.last()->status,
            events.last()->content_length,
        ) is Ok {
            events.last()->content_length
        } else {
            declared(s, events.drop_last())
        }
    }
}

/// The action at a position of a run is the answer to the event at that
/// position in the state that the events before it led to.
pub proof fn lemma_run_at(s: LoadState, events: Seq<LoadEvent>, i: int)
    requires
        0 <= i < events.len(),
    ensures
        run(s, events).1.len() == events.len(),
        run(s, events).1[i] == next(run(s, events.take(i)).0, events[i]).1,
        run(s, events.take(i + 1)).0 == next(run(s, events.take(i)).0, events[i]).0,
    decreases events.len(),
{
    let front = events.drop_last();
    if i < events.len() - 1 {
        lemma_run_at(s, front, i);
        assert(front.take(i) =~= events.take(i));
        assert(front.take(i + 1) =~= events.take(i + 1));
    } else {
        if front.len() > 0 {
            lemma_run_at(s, front, 0);
        }
        assert(events.take(i) =~= front);
        assert(events.take(i + 1) =~= events);
    }
}

/// Download completeness. At every point of a load the count is the number
/// of bytes written to the file, no part is counted before it is written,
/// and the declared length is the one of the response that was taken. So
/// the progress reported last counts the whole file, and where the body had
/// the declared length, it is that length.
pub proof fn lemma_count_is_file_size(observed: bool, events: Seq<LoadEvent>)
    ensures
        ({
            let start = initial(observed);
            let (t, actions) = run(start, events);
            &&& valid(t)
            &&& actions.len() == events.len()
            &&& t.progress.downloaded == written(start, events)
            &&& declared(start, events) matches Some(total) ==> t.progress.total == total
            &&& (t.phase is Preparing || t.phase is Requesting) ==> declared(start, events) is None
                && t.progress.downloaded == 0
            &&& !(t.phase is Preparing || t.phase is Requesting || t.phase is Done) ==> declared(
                start,
                events,
            ) is Some
            &&& events.len() > 0 && actions.last() is Report ==> actions.last()->Report_0
                == t.progress
            &&& written(start, events) == t.progress.total ==> t.progress.downloaded
                == t.progress.total
        }),
    decreases events.len(),
{
    let start = initial(observed);
    if events.len() > 0 {
        lemma_count_is_file_size(observed, events.drop_last());
        let mid = run(start, events.drop_last()).0;
        lemma_step_keeps_valid(mid, events.last());
    }
}

/// A load that ends in an anchor has counted, and reported last, exactly the
/// bytes of the file it wrote, under the length that the server declared;
/// where the body had that length, the count is the declared length.
pub proof fn lemma_download_complete(observed: bool, events: Seq<LoadEvent>)
    requires
        events.len() > 0,
        run(initial(observed), events).1.last() matches LoadAction::Finish(Ok(_)),
    ensures
        ({
            let start = initial(observed);
            let done = run(start, events).0;
            &&& done.progress.downloaded == written(start, events)
            &&& declared(start, events) == Some(done.progress.total)
            &&& written(start, events) == done.progress.total ==> Some(done.progress.downloaded)
                == declared(start, events)
        }),
{
    let start = initial(observed);
    lemma_count_is_file_size(observed, events);
    lemma_count_is_file_size(observed, events.drop_last());
    lemma_cleanup_while_cleaning(observed, events.drop_last());
}

/// The count never goes down in the course of a load.
pub proof fn lemma_count_is_monotonic(observed: bool, events: Seq<LoadEvent>, k: int)
    requires
        0 <= k <= events.len(),
    ensures
        run(initial(observed), events.take(k)).0.progress.downloaded <= run(
            initial(observed),
            events,
        ).0.progress.downloaded,
    decreases events.len() - k,
{
    let start = initial(observed);
    if k < events.len() {
        lemma_count_is_monotonic(observed, events, k + 1);
        lemma_count_is_file_size(observed, events.take(k));
        lemma_count_is_file_size(observed, events.take(k + 1));
        assert(events.take(k + 1).drop_last() =~= events.take(k));
    } else {
        assert(events.take(k) =~= events);
    }
}

/// Whether the removal of the extraction's file was asked for.
pub open spec fn cleanup_asked(actions: Seq<LoadAction>) -> bool {
    exists|i: int| 0 <= i < actions.len() && #[trigger] actions[i] == LoadAction::RemoveTemp
}

/// Whether an outcome comes from the extraction: an anchor, the lack of one,
/// or a failure of the store.
pub open spec fn from_extraction(outcome: Result<RootAnchor, LoadError>) -> bool {
    match outcome {
        Ok(_) => true,
        Err(LoadError::NoAnchors) => true,
        Err(LoadError::Store(_)) => true,
        _ => false,
    }
}

proof fn lemma_cleanup_while_cleaning(observed: bool, events: Seq<LoadEvent>)
    ensures
        ({
            let (t, actions) = run(initial(observed), events);
            &&& t.phase is Cleaning ==> cleanup_asked(actions)
            &&& t.phase is Cleaning ==> t.outcome is Some && from_extraction(t.outcome.unwrap())
        }),
    decreases events.len(),
{
    if events.len() > 0 {
        lemma_cleanup_while_cleaning(observed, events.drop_last());
        let (mid, before) = run(initial(observed), events.drop_last());
        let (t, actions) = run(initial(observed), events);
        if t.phase is Cleaning {
            if mid.phase is Cleaning {
                let i = choose|i: int|
                    0 <= i < before.len() && #[trigger] before[i] == LoadAction::RemoveTemp;
                assert(actions[i] == LoadAction::RemoveTemp);
            } else {
                assert(actions[actions.len() - 1] == LoadAction::RemoveTemp);
            }
        }
    }
}

/// Scoped cleanup. An outcome of the extraction, the lack of anchors among
/// them, is handed over only after the removal of the extraction's file was
/// asked for; and a snapshot without anchors ends in the error `NoAnchors`
/// and no other.
pub proof fn lemma_cleanup_before_outcome(observed: bool, events: Seq<LoadEvent>, j: int)
    requires
        0 <= j < events.len(),
    ensures
        ({
            let actions = run(initial(observed), events).1;
            let before = run(initial(observed), events.take(j));
            &&& actions.len() == events.len()
            &&& (actions[j] is Finish && from_extraction(actions[j]->Finish_0))
                ==> cleanup_asked(actions.take(j))
            &&& (before.0.phase is Extracting && events[j] is Extracted
                && events[j]->anchors@.len() == 0) ==> {
                &&& actions[j] == LoadAction::RemoveTemp
                &&& next(before.0, events[j]).0.outcome == Some(
                    Err::<RootAnchor, LoadError>(LoadError::NoAnchors),
                )
            }
        }),
{
    let start = initial(observed);
    lemma_run_at(start, events, j);
    lemma_cleanup_while_cleaning(observed, events.take(j));
    lemma_count_is_file_size(observed, events.take(j));
    let (mid, before) = run(start, events.take(j));
    let actions = run(start, events).1;
    lemma_actions_of_prefix(start, events, j);
}

/// The actions of the first events of a run are the first actions of the
/// run.
pub proof fn lemma_actions_of_prefix(s: LoadState, events: Seq<LoadEvent>, k: int)
    requires
        0 <= k <= events.len(),
    ensures
        run(s, events.take(k)).1 == run(s, events).1.take(k),
    decreases events.len() - k,
{
    if k < events.len() {
        lemma_actions_of_prefix(s, events, k + 1);
        lemma_run_at(s, events, k);
        let longer = events.take(k + 1);
        assert(longer.drop_last() =~= events.take(k));
        assert(run(s, longer).1 == run(s, events.take(k)).1.push(
            next(run(s, events.take(k)).0, longer.last()).1,
        ));
        assert(run(s, events).1.take(k) =~= run(s, events).1.take(k + 1).drop_last());
    } else {
        assert(events.take(k) =~= events);
        lemma_run_len(s, events);
        assert(run(s, events).1.take(k) =~= run(s, events).1);
    }
}

/// Each event of a run is answered by one action.
pub proof fn lemma_run_len(s: LoadState, events: Seq<LoadEvent>)
    ensures
        run(s, events).1.len() == events.len(),
    decreases events.len(),
{
    if events.len() > 0 {
        lemma_run_len(s, events.drop_last());
    }
}

} // verus!
