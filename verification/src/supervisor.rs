//! The supervisor's decisions. The event loop that owns the processes and
//! connections hands each thing that happens to `Supervisor::step` and does
//! what the returned action says; all changes to the set of workers are made
//! here, one event at a time.

use crate::registry::{
    apply, entry, free_slot, is_slot_of, lemma_connections_differ, lemma_position_from,
    lemma_push, lemma_without, lookup, unique_roles, well_placed, without, Registry, RegistryOp,
    Worker,
};
use crate::runner::ServiceKind;
use vstd::prelude::*;
use vstd::string::StringExecFns;

verus! {

/// Why a worker could not be started.
#[derive(Debug, PartialEq, Eq)]
pub enum StartError {
    /// The process could not be created.
    Spawn(String),
    /// The worker did not connect back.
    Attach(String),
    /// The worker reported a failure of its own while it started.
    Worker(String),
}

impl StartError {
    /// What the error says to the caller who asked for a worker of `kind`.
    pub open spec fn message(self, kind: ServiceKind) -> Seq<char> {
        match self {
            StartError::Spawn(_) => "Failed to spawn child service "@ + kind.name(),
            StartError::Attach(_) => "Failed to accept child connection"@,
            StartError::Worker(cause) => cause@,
        }
    }

    /// The error in words.
    pub fn describe(&self, kind: ServiceKind) -> (text: String)
        ensures
            text@ == self.message(kind),
    {
        match self {
            StartError::Spawn(_) => {
                let mut text = "Failed to spawn child service ".to_string();
                text.append(kind.as_str());
                text
            },
            StartError::Attach(_) => "Failed to accept child connection".to_string(),
            StartError::Worker(cause) => cause.clone(),
        }
    }
}

/// What happened outside, as the event loop reports it.
#[derive(Debug, PartialEq, Eq)]
pub enum Event {
    /// The caller asks for a worker of this role, with these arguments.
    StartRequested { kind: ServiceKind, args: Vec<String> },
    /// The worker asked for was created and connected back.
    Attached,
    /// The worker asked for could not be started.
    StartFailed { error: StartError },
    /// The caller asks to stop the worker of this role.
    StopRequested { kind: ServiceKind },
    /// The `Shutdown` byte asked for was written, or the write was given up.
    ShutdownSent,
    /// The heartbeat interval elapsed.
    Tick,
    /// The `Ping` byte asked for was written (`alive`) or the write failed.
    PingDone { alive: bool },
    /// The cancellation signal was observed.
    Cancelled,
}

/// What the event loop is to do next.
#[derive(Debug, PartialEq, Eq)]
pub enum Action {
    /// Create a worker process of this role and wait for it to connect back;
    /// keep its process and connection under the number `conn`; then report
    /// `Attached` or `StartFailed`.
    Spawn { kind: ServiceKind, args: Vec<String>, capture_logs: bool, conn: u64 },
    /// Write the `Shutdown` byte to this connection and let go of the worker,
    /// then report `ShutdownSent`.
    SendShutdown { conn: u64 },
    /// Write the `Ping` byte to this connection, then report `PingDone`.
    Ping { conn: u64 },
    /// Answer the caller's start request.
    ReplyStart(Result<(), StartError>),
    /// Answer the caller's stop request; a stop always succeeds.
    ReplyStop,
    /// Fire the cancellation signal and leave the loop.
    Cancel,
    /// Leave the loop.
    Exit,
    /// Nothing is to be done: wait for the next event.
    Wait,
}

/// Where the supervisor stands between two events.
#[derive(Debug, Clone, Copy, PartialEq, Eq, Structural)]
pub enum Phase {
    /// Waiting for a request, a tick or the cancellation.
    Idle,
    /// This worker is being created.
    Starting { worker: Worker },
    /// The former worker of a role is being told to shut down; `worker` takes
    /// the role once that is done.
    Replacing { worker: Worker },
    /// A stopped worker is being told to shut down.
    Stopping,
    /// The worker at this position is being pinged.
    Beating { at: usize },
    /// The loop has ended.
    Stopped,
}

/// The supervisor's state: the workers in the order in which they were
/// registered, the phase, and whether the workers' output is captured.
pub struct Core {
    pub workers: Seq<Worker>,
    pub phase: Phase,
    pub capture_logs: bool,
}

/// The states that a supervisor can be in: no role has two workers, each
/// worker holds a connection number of its role, a heartbeat points at a
/// worker, a worker that is being created has the number that is free for
/// its role, and a worker that waits to replace another waits for a role
/// that was vacated.
pub open spec fn valid(s: Core) -> bool {
    &&& unique_roles(s.workers)
    &&& well_placed(s.workers)
    &&& s.phase matches Phase::Beating { at } ==> at < s.workers.len()
    &&& s.phase matches Phase::Starting { worker } ==> worker.conn == free_slot(
        s.workers,
        worker.kind,
    )
    &&& s.phase matches Phase::Replacing { worker } ==> entry(s.workers, worker.kind) is None
        && is_slot_of(worker.conn, worker.kind)
}

/// The state and the action that follow from a state and an event.
///
/// Once stopped, the supervisor only tells the loop to leave. The
/// cancellation stops it in every other phase. An event that the phase does
/// not wait for changes nothing.
pub open spec fn next(s: Core, e: Event) -> (Core, Action) {
    if s.phase is Stopped {
        (s, Action::Exit)
    } else if e is Cancelled {
        (Core { phase: Phase::Stopped, ..s }, Action::Exit)
    } else {
        match s.phase {
            Phase::Idle => next_idle(s, e),
            Phase::Starting { worker } => next_starting(s, worker, e),
            Phase::Replacing { worker } => match e {
                Event::ShutdownSent => (
                    Core { workers: s.workers.push(worker), phase: Phase::Idle, ..s },
                    Action::ReplyStart(Ok(())),
                ),
                _ => (s, Action::Wait),
            },
            Phase::Stopping => match e {
                Event::ShutdownSent => (Core { phase: Phase::Idle, ..s }, Action::ReplyStop),
                _ => (s, Action::Wait),
            },
            Phase::Beating { at } => next_beating(s, at, e),
            Phase::Stopped => (s, Action::Exit),
        }
    }
}

/// What an idle supervisor does. A start request has the worker created,
/// under the connection number that is free for its role. A stop request
/// takes the role's worker out and has it told to shut down; for a role
/// without a worker it succeeds at once. A tick begins a round of pings with
/// the worker registered first.
pub open spec fn next_idle(s: Core, e: Event) -> (Core, Action) {
    match e {
        Event::StartRequested { kind, args } => {
            let conn = free_slot(s.workers, kind);
            (
                Core { phase: Phase::Starting { worker: Worker { kind, conn } }, ..s },
                Action::Spawn { kind, args, capture_logs: s.capture_logs, conn },
            )
        },
        Event::StopRequested { kind } => match entry(s.workers, kind) {
            Some(worker) => (
                Core { workers: without(s.workers, kind), phase: Phase::Stopping, ..s },
                Action::SendShutdown { conn: worker.conn },
            ),
            None => (s, Action::ReplyStop),
        },
        Event::Tick => if s.workers.len() > 0 {
            (Core { phase: Phase::Beating { at: 0 }, ..s }, Action::Ping { conn: s.workers[0].conn })
        } else {
            (s, Action::Wait)
        },
        _ => (s, Action::Wait),
    }
}

/// What becomes of a start. A failure is passed on to the caller as it is.
/// A worker that connected back takes a vacant role at once; where the role
/// has a worker, that one is taken out and told to shut down first.
pub open spec fn next_starting(s: Core, worker: Worker, e: Event) -> (Core, Action) {
    match e {
        Event::Attached => match entry(s.workers, worker.kind) {
            Some(former) => (
                Core {
                    workers: without(s.workers, worker.kind),
                    phase: Phase::Replacing { worker },
                    ..s
                },
                Action::SendShutdown { conn: former.conn },
            ),
            None => (
                Core { workers: s.workers.push(worker), phase: Phase::Idle, ..s },
                Action::ReplyStart(Ok(())),
            ),
        },
        Event::StartFailed { error } => (
            Core { phase: Phase::Idle, ..s },
            Action::ReplyStart(Err(error)),
        ),
        _ => (s, Action::Wait),
    }
}

/// What follows a ping. One failed write stops the supervisor and fires the
/// cancellation; after a write that went through the next worker is pinged,
/// and after the last one the round is over.
pub open spec fn next_beating(s: Core, at: usize, e: Event) -> (Core, Action) {
    match e {
        Event::PingDone { alive } => if !alive {
            (Core { phase: Phase::Stopped, ..s }, Action::Cancel)
        } else if at + 1 < s.workers.len() {
            (
                Core { phase: Phase::Beating { at: (at + 1) as usize }, ..s },
                Action::Ping { conn: s.workers[at + 1].conn },
            )
        } else {
            (Core { phase: Phase::Idle, ..s }, Action::Wait)
        },
        _ => (s, Action::Wait),
    }
}

/// The seconds between two rounds of pings.
pub const HEARTBEAT_SECS: u64 = 1;

/// How many requests may wait for the supervisor.
pub const COMMAND_QUEUE: usize = 20;

/// The supervisor of the worker processes.
#[derive(Debug)]
pub struct Supervisor {
    registry: Registry,
    phase: Phase,
    capture_logs: bool,
}

impl View for Supervisor {
    type V = Core;

    closed spec fn view(&self) -> Core {
        Core { workers: self.registry@, phase: self.phase, capture_logs: self.capture_logs }
    }
}

impl Supervisor {
    /// A supervisor is always in a state that `valid` allows.
    #[verifier::type_invariant]
    spec fn well_formed(self) -> bool {
        valid(self@)
    }

    /// An idle supervisor without workers. `capture_logs` says whether the
    /// output of every worker is to be captured.
    pub fn new(capture_logs: bool) -> (supervisor: Self)
        ensures
            supervisor@ == (Core {
                workers: Seq::empty(),
                phase: Phase::Idle,
                capture_logs,
            }),
    {
        Supervisor { registry: Registry::new(), phase: Phase::Idle, capture_logs }
    }

    /// The phase the supervisor is in.
    pub fn phase(&self) -> (phase: Phase)
        ensures
            phase == self@.phase,
            valid(self@),
    {
        proof {
            use_type_invariant(self);
        }
        self.phase
    }

    /// Whether the workers' output is captured.
    pub fn captures_logs(&self) -> (capture: bool)
        ensures
            capture == self@.capture_logs,
    {
        self.capture_logs
    }

    /// The number of registered workers.
    pub fn worker_count(&self) -> (n: usize)
        ensures
            n == self@.workers.len(),
    {
        self.registry.len()
    }

    /// The connection of the worker registered for a role.
    pub fn connection(&self, kind: ServiceKind) -> (conn: Option<u64>)
        ensures
            conn == lookup(self@.workers, kind),
    {
        match self.registry.find(kind) {
            Some(worker) => Some(worker.conn),
            None => None,
        }
    }

    /// Takes in one event and says what the event loop is to do next.
    pub fn step(&mut self, event: Event) -> (action: Action)
        ensures
            (final(self)@, action) == next(old(self)@, event),
            valid(old(self)@),
            valid(final(self)@),
    {
        proof {
            use_type_invariant(&*self);
            lemma_step_keeps_valid(self@, event);
        }
        let phase = self.phase;
        if let Phase::Stopped = phase {
            return Action::Exit;
        }
        if let Event::Cancelled = event {
            self.phase = Phase::Stopped;
            return Action::Exit;
        }
        // the workers are taken out while they are worked on
        let ghost before = self@;
        self.phase = Phase::Idle;
        let mut registry = Registry::new();
        std::mem::swap(&mut registry, &mut self.registry);
        let count = registry.len();
        let (after, action) = match phase {
            Phase::Idle => match event {
                Event::StartRequested { kind, args } => {
                    let conn = registry.slot_for(kind);
                    (
                        Phase::Starting { worker: Worker { kind, conn } },
                        Action::Spawn { kind, args, capture_logs: self.capture_logs, conn },
                    )
                },
                Event::StopRequested { kind } => match registry.evict(kind) {
                    Some(worker) => (Phase::Stopping, Action::SendShutdown { conn: worker.conn }),
                    None => (Phase::Idle, Action::ReplyStop),
                },
                Event::Tick => match registry.get(0) {
                    Some(worker) => (Phase::Beating { at: 0 }, Action::Ping { conn: worker.conn }),
                    None => (Phase::Idle, Action::Wait),
                },
                _ => (Phase::Idle, Action::Wait),
            },
            Phase::Starting { worker } => match event {
                Event::Attached => {
                    proof {
                        lemma_without(registry@, worker.kind, worker.kind);
                        lemma_connections_differ(registry@, worker.kind);
                    }
                    match registry.evict(worker.kind) {
                        Some(former) => (
                            Phase::Replacing { worker },
                            Action::SendShutdown { conn: former.conn },
                        ),
                        None => {
                            registry.register(worker);
                            (Phase::Idle, Action::ReplyStart(Ok(())))
                        },
                    }
                },
                Event::StartFailed { error } => (Phase::Idle, Action::ReplyStart(Err(error))),
                _ => (phase, Action::Wait),
            },
            Phase::Replacing { worker } => match event {
                Event::ShutdownSent => {
                    registry.register(worker);
                    (Phase::Idle, Action::ReplyStart(Ok(())))
                },
                _ => (phase, Action::Wait),
            },
            Phase::Stopping => match event {
                Event::ShutdownSent => (Phase::Idle, Action::ReplyStop),
                _ => (phase, Action::Wait),
            },
            Phase::Beating { at } => match event {
                Event::PingDone { alive } => {
                    if !alive {
                        (Phase::Stopped, Action::Cancel)
                    } else {
                        assert(at < count);
                        match registry.get(at + 1) {
                            Some(worker) => (
                                Phase::Beating { at: at + 1 },
                                Action::Ping { conn: worker.conn },
                            ),
                            None => (Phase::Idle, Action::Wait),
                        }
                    }
                },
                _ => (phase, Action::Wait),
            },
            Phase::Stopped => (phase, Action::Exit),
        };
        assert(registry@ == next(before, event).0.workers);
        assert(after == next(before, event).0.phase);
        self.registry = registry;
        self.phase = after;
        action
    }
}

/// Every step leads from a state that a supervisor can be in to another.
pub proof fn lemma_step_keeps_valid(s: Core, e: Event)
    requires
        valid(s),
    ensures
        valid(next(s, e).0),
{
    let t = next(s, e).0;
    match s.phase {
        Phase::Idle => {
            if let Event::StopRequested { kind } = e {
                lemma_without(s.workers, kind, kind);
            }
            if let Event::StartRequested { kind, args } = e {
                lemma_connections_differ(s.workers, kind);
            }
        },
        Phase::Starting { worker } => {
            lemma_connections_differ(s.workers, worker.kind);
            if e is Attached {
                lemma_without(s.workers, worker.kind, worker.kind);
                if entry(s.workers, worker.kind) is None {
                    lemma_push(s.workers, worker, worker.kind);
                }
            }
        },
        Phase::Replacing { worker } => {
            lemma_push(s.workers, worker, worker.kind);
        },
        _ => {},
    }
}

/// The worker that is being created or waits to take its role, if any.
pub open spec fn incoming(s: Core) -> Option<Worker> {
    match s.phase {
        Phase::Starting { worker } => Some(worker),
        Phase::Replacing { worker } => Some(worker),
        _ => None,
    }
}

/// No two workers share a connection number, and the number of a worker
/// that is being created, or waits to take its role, is held by no
/// registered worker: the `Shutdown` byte for the former worker of a role
/// never goes to the next one.
pub proof fn lemma_connection_numbers(s: Core)
    requires
        valid(s),
    ensures
        forall|i: int, j: int|
            0 <= i < j < s.workers.len() ==> (#[trigger] s.workers[i]).conn != (
            #[trigger] s.workers[j]).conn,
        incoming(s) matches Some(worker) ==> forall|i: int|
            0 <= i < s.workers.len() ==> (#[trigger] s.workers[i]).conn != worker.conn,
{
    match incoming(s) {
        Some(worker) => {
            lemma_connections_differ(s.workers, worker.kind);
            if s.phase is Replacing {
                lemma_position_from(s.workers, worker.kind, 0);
            }
        },
        None => {
            lemma_connections_differ(s.workers, ServiceKind::Spaces);
        },
    }
}

/// A step leaves the workers as they are, takes the worker of one role out,
/// or adds one worker in a role that was vacant: it changes the registry by
/// one stop or one start at most. It answers a start with success exactly
/// when it adds a worker, and that worker then holds its role.
pub proof fn lemma_step_changes_one_role(s: Core, e: Event)
    requires
        valid(s),
    ensures
        ({
            let (t, action) = next(s, e);
            ||| t.workers == s.workers && !(action matches Action::ReplyStart(Ok(_)))
            ||| exists|kind: ServiceKind|
                {
                    &&& entry(s.workers, kind) is Some
                    &&& t.workers == #[trigger] without(s.workers, kind)
                    &&& t.workers == apply(s.workers, RegistryOp::Stopped(kind))
                    &&& action == (Action::SendShutdown { conn: entry(s.workers, kind).unwrap().conn })
                }
            ||| exists|worker: Worker|
                {
                    &&& entry(s.workers, worker.kind) is None
                    &&& t.workers == #[trigger] s.workers.push(worker)
                    &&& t.workers == apply(s.workers, RegistryOp::Started(worker))
                    &&& entry(t.workers, worker.kind) == Some(worker)
                    &&& action == Action::ReplyStart(Ok(()))
                }
        }),
{
    let (t, action) = next(s, e);
    match s.phase {
        Phase::Idle => {
            if let Event::StopRequested { kind } = e {
                if entry(s.workers, kind) is Some {
                    assert(t.workers == without(s.workers, kind));
                }
            }
        },
        Phase::Starting { worker } => {
            if e is Attached {
                if entry(s.workers, worker.kind) is None {
                    lemma_push(s.workers, worker, worker.kind);
                    assert(t.workers == s.workers.push(worker));
                } else {
                    assert(t.workers == without(s.workers, worker.kind));
                }
            }
        },
        Phase::Replacing { worker } => {
            if e is ShutdownSent {
                lemma_push(s.workers, worker, worker.kind);
                assert(t.workers == s.workers.push(worker));
            }
        },
        _ => {},
    }
}

/// The order of a replacement. No step puts one worker in the place of
/// another: a worker leaves its role only in a step that has the `Shutdown`
/// byte sent to it, and the role is vacant after that step; a worker enters
/// only a vacant role. So the former worker of a role is told to shut down
/// strictly before the next one is registered.
pub proof fn lemma_replacement_order(s: Core, e: Event, kind: ServiceKind)
    requires
        valid(s),
    ensures
        ({
            let (t, action) = next(s, e);
            &&& (lookup(s.workers, kind) is Some && lookup(t.workers, kind) != lookup(
                s.workers,
                kind,
            )) ==> lookup(t.workers, kind) is None && action == (Action::SendShutdown {
                conn: lookup(s.workers, kind).unwrap(),
            })
            &&& (lookup(t.workers, kind) is Some && lookup(t.workers, kind) != lookup(
                s.workers,
                kind,
            )) ==> lookup(s.workers, kind) is None
        }),
{
    let (t, action) = next(s, e);
    match s.phase {
        Phase::Idle => {
            if let Event::StopRequested { kind: stopped } = e {
                lemma_without(s.workers, stopped, kind);
            }
        },
        Phase::Starting { worker } => {
            if e is Attached {
                lemma_without(s.workers, worker.kind, kind);
                if entry(s.workers, worker.kind) is None {
                    lemma_push(s.workers, worker, kind);
                }
            }
        },
        Phase::Replacing { worker } => {
            lemma_push(s.workers, worker, kind);
        },
        _ => {},
    }
}

/// The cancellation is fired exactly by the step that learns of a failed
/// ping, and that step stops the supervisor.
pub proof fn lemma_cancel_on_failed_ping(s: Core, e: Event)
    ensures
        next(s, e).1 == Action::Cancel <==> (s.phase is Beating && e == (Event::PingDone {
            alive: false,
        })),
        next(s, e).1 == Action::Cancel ==> next(s, e).0.phase is Stopped,
        next(s, e).1 is Ping ==> !(next(s, e).0.phase is Stopped) && (e is Tick || e
            == (Event::PingDone { alive: true })),
        s.phase is Stopped ==> next(s, e) == (s, Action::Exit),
{
}

/// The state after a sequence of events and the actions that answered them.
pub open spec fn run(s: Core, events: Seq<Event>) -> (Core, Seq<Action>)
    decreases events.len(),
{
    if events.len() == 0 {
        (s, Seq::empty())
    } else {
        let (mid, actions) = run(s, events.drop_last());
        let (t, action) = next(mid, events.last());
        (t, actions.push(action))
    }
}

/// Whatever happens, the supervisor stays in a state that it can be in: in
/// particular no role ever has two workers. Each event is answered by one
/// action.
pub proof fn lemma_run_keeps_valid(s: Core, events: Seq<Event>)
    requires
        valid(s),
    ensures
        valid(run(s, events).0),
        unique_roles(run(s, events).0.workers),
        run(s, events).1.len() == events.len(),
    decreases events.len(),
{
    if events.len() > 0 {
        lemma_run_keeps_valid(s, events.drop_last());
        lemma_step_keeps_valid(run(s, events.drop_last()).0, events.last());
    }
}

/// The action at a position of a run is the answer to the event at that
/// position in the state that the events before it led to.
pub proof fn lemma_run_at(s: Core, events: Seq<Event>, i: int)
    requires
        0 <= i < events.len(),
    ensures
        run(s, events).1.len() == events.len(),
        run(s, events).1[i] == next(run(s, events.take(i)).0, events[i]).1,
        run(s, events.take(i + 1)).0 == next(run(s, events.take(i)).0, events[i]).0,
    decreases events.len(),
{
    let front = events.drop_last();
    if i < events.len() - 1 {
        lemma_run_at(s, front, i);
        assert(front.take(i) =~= events.take(i));
        assert(front.take(i + 1) =~= events.take(i + 1));
    } else {
        if front.len() > 0 {
            lemma_run_at(s, front, 0);
        }
        assert(events.take(i) =~= front);
        assert(events.take(i + 1) =~= events);
    }
}

/// A supervisor that stopped stays stopped.
pub proof fn lemma_stopped_for_good(s: Core, events: Seq<Event>, i: int, j: int)
    requires
        0 <= i <= j <= events.len(),
        run(s, events.take(i)).0.phase is Stopped,
    ensures
        run(s, events.take(j)).0.phase is Stopped,
    decreases j - i,
{
    if i < j {
        lemma_stopped_for_good(s, events, i, j - 1);
        lemma_run_at(s, events, j - 1);
    }
}

/// Fail together: once a ping has failed and the cancellation was fired,
/// every later event is answered by `Exit`. So the cancellation is fired
/// once in a run, and no ping follows it.
pub proof fn lemma_fail_together(s: Core, events: Seq<Event>, i: int, j: int)
    requires
        0 <= i < j < events.len(),
        run(s, events).1[i] == Action::Cancel,
    ensures
        run(s, events).1[j] == Action::Exit,
{
    lemma_run_at(s, events, i);
    lemma_run_at(s, events, j);
    lemma_cancel_on_failed_ping(run(s, events.take(i)).0, events[i]);
    lemma_stopped_for_good(s, events, i + 1, j);
}

/// Replacement ordering over a whole run: where a role has one worker at one
/// time and another at a later time, the `Shutdown` byte was sent to the
/// first in between, and the role was vacant right after that.
pub proof fn lemma_shutdown_before_replacement(
    s: Core,
    events: Seq<Event>,
    i: int,
    j: int,
    kind: ServiceKind,
)
    requires
        valid(s),
        0 <= i <= j <= events.len(),
        lookup(run(s, events.take(i)).0.workers, kind) is Some,
        lookup(run(s, events.take(j)).0.workers, kind) is Some,
        lookup(run(s, events.take(i)).0.workers, kind) != lookup(
            run(s, events.take(j)).0.workers,
            kind,
        ),
    ensures
        exists|k: int|
            {
                &&& i <= k < j
                &&& #[trigger] run(s, events).1[k] == (Action::SendShutdown {
                    conn: lookup(run(s, events.take(i)).0.workers, kind).unwrap(),
                })
                &&& lookup(run(s, events.take(k + 1)).0.workers, kind) is None
            },
    decreases j - i,
{
    let before = run(s, events.take(i)).0;
    lemma_run_keeps_valid(s, events.take(i));
    lemma_run_at(s, events, i);
    lemma_replacement_order(before, events[i], kind);
    let after = run(s, events.take(i + 1)).0;
    if lookup(after.workers, kind) == lookup(before.workers, kind) {
        lemma_shutdown_before_replacement(s, events, i + 1, j, kind);
        let k = choose|k: int|
            {
                &&& i + 1 <= k < j
                &&& #[trigger] run(s, events).1[k] == (Action::SendShutdown {
                    conn: lookup(after.workers, kind).unwrap(),
                })
                &&& lookup(run(s, events.take(k + 1)).0.workers, kind) is None
            };
        assert(i <= k < j);
    } else {
        assert(run(s, events).1[i] == (Action::SendShutdown {
            conn: lookup(before.workers, kind).unwrap(),
        }));
    }
}

} // verus!
