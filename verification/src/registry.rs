//! The set of running workers: at most one for each role, kept in the order
//! in which they were registered. Each role has two connection numbers of its
//! own, so that the next worker of a role has a number while the former one
//! still holds the other.

use crate::runner::ServiceKind;
use vstd::prelude::*;

verus! {

/// One running worker: its role and the number under which the owner of the
/// registry keeps its process and connection.
#[derive(Clone, Copy, Debug, PartialEq, Eq, Structural)]
pub struct Worker {
    pub kind: ServiceKind,
    pub conn: u64,
}

/// No role occurs twice.
pub open spec fn unique_roles(workers: Seq<Worker>) -> bool {
    forall|i: int, j: int| 0 <= i < j < workers.len() ==> workers[i].kind != workers[j].kind
}

/// The first of the two connection numbers of a role.
pub open spec fn first_slot(kind: ServiceKind) -> u64 {
    match kind {
        ServiceKind::Spaces => 0,
        ServiceKind::Yuki => 2,
    }
}

/// Whether a connection number is one of the two of a role.
pub open spec fn is_slot_of(conn: u64, kind: ServiceKind) -> bool {
    conn == first_slot(kind) || conn == first_slot(kind) + 1
}

/// Every worker holds a connection number of its role.
pub open spec fn well_placed(workers: Seq<Worker>) -> bool {
    forall|i: int| 0 <= i < workers.len() ==> is_slot_of((#[trigger] workers[i]).conn, workers[i].kind)
}

/// The connection number for the next worker of a role: the one of the
/// role's two that its present worker does not hold.
pub open spec fn free_slot(workers: Seq<Worker>, kind: ServiceKind) -> u64 {
    match entry(workers, kind) {
        Some(worker) => if worker.conn == first_slot(kind) {
            (first_slot(kind) + 1) as u64
        } else {
            first_slot(kind)
        },
        None => first_slot(kind),
    }
}

/// The first position from `from` on that holds a worker of the role.
pub open spec fn position_from(workers: Seq<Worker>, kind: ServiceKind, from: int) -> Option<int>
    decreases workers.len() - from,
{
    if from < 0 || from >= workers.len() {
        None
    } else if workers[from].kind == kind {
        Some(from)
    } else {
        position_from(workers, kind, from + 1)
    }
}

/// The worker registered for a role.
pub open spec fn entry(workers: Seq<Worker>, kind: ServiceKind) -> Option<Worker> {
    match position_from(workers, kind, 0) {
        Some(p) => Some(workers[p]),
        None => None,
    }
}

/// The connection registered for a role.
pub open spec fn lookup(workers: Seq<Worker>, kind: ServiceKind) -> Option<u64> {
    match entry(workers, kind) {
        Some(w) => Some(w.conn),
        None => None,
    }
}

/// The workers without the one of the given role; the others keep their
/// order.
pub open spec fn without(workers: Seq<Worker>, kind: ServiceKind) -> Seq<Worker> {
    match position_from(workers, kind, 0) {
        Some(p) => workers.remove(p),
        None => workers,
    }
}

/// `position_from` finds the least position not before `from` that holds the
/// role, and none exactly when there is none.
pub proof fn lemma_position_from(workers: Seq<Worker>, kind: ServiceKind, from: int)
    requires
        0 <= from,
    ensures
        match position_from(workers, kind, from) {
            Some(p) => from <= p < workers.len() && workers[p].kind == kind && forall|j: int|
                from <= j < p ==> workers[j].kind != kind,
            None => forall|j: int| from <= j < workers.len() ==> workers[j].kind != kind,
        },
    decreases workers.len() - from,
{
    if from < workers.len() && workers[from].kind != kind {
        lemma_position_from(workers, kind, from + 1);
    }
}

/// In a list without a repeated role, the position of a role is the one
/// position that holds it.
pub proof fn lemma_position_is_unique(workers: Seq<Worker>, p: int)
    requires
        unique_roles(workers),
        0 <= p < workers.len(),
    ensures
        position_from(workers, workers[p].kind, 0) == Some(p),
        entry(workers, workers[p].kind) == Some(workers[p]),
{
    lemma_position_from(workers, workers[p].kind, 0);
}

/// Taking a role out leaves a list without that role, in which every other
/// role has the worker it had; the list stays free of repeated roles.
pub proof fn lemma_without(workers: Seq<Worker>, kind: ServiceKind, other: ServiceKind)
    requires
        unique_roles(workers),
    ensures
        unique_roles(without(workers, kind)),
        well_placed(workers) ==> well_placed(without(workers, kind)),
        entry(without(workers, kind), kind) is None,
        other != kind ==> entry(without(workers, kind), other) == entry(workers, other),
{
    let rest = without(workers, kind);
    lemma_position_from(workers, kind, 0);
    lemma_position_from(workers, other, 0);
    lemma_position_from(rest, kind, 0);
    lemma_position_from(rest, other, 0);
    match position_from(workers, kind, 0) {
        None => {},
        Some(p) => {
            assert(rest.len() == workers.len() - 1);
            assert forall|i: int| 0 <= i < rest.len() implies rest[i] == workers[if i < p {
                i
            } else {
                i + 1
            }] by {}
            assert forall|i: int, j: int| 0 <= i < j < rest.len() implies rest[i].kind
                != rest[j].kind by {
                let a = if i < p {
                    i
                } else {
                    i + 1
                };
                let b = if j < p {
                    j
                } else {
                    j + 1
                };
                assert(rest[i] == workers[a] && rest[j] == workers[b]);
            }
            assert forall|i: int| 0 <= i < rest.len() implies rest[i].kind != kind by {
                let a = if i < p {
                    i
                } else {
                    i + 1
                };
                assert(rest[i] == workers[a]);
                assert(a != p);
                if a < p {
                } else {
                    assert(workers[p].kind != workers[a].kind);
                }
            }
            if well_placed(workers) {
                assert forall|i: int| 0 <= i < rest.len() implies is_slot_of(
                    (#[trigger] rest[i]).conn,
                    rest[i].kind,
                ) by {
                    let a = if i < p {
                        i
                    } else {
                        i + 1
                    };
                    assert(rest[i] == workers[a]);
                }
            }
            if other != kind {
                match position_from(workers, other, 0) {
                    None => {
                        assert forall|i: int| 0 <= i < rest.len() implies rest[i].kind
                            != other by {
                            let a = if i < p {
                                i
                            } else {
                                i + 1
                            };
                            assert(rest[i] == workers[a]);
                        }
                    },
                    Some(q) => {
                        assert(q != p);
                        let q2 = if q < p {
                            q
                        } else {
                            q - 1
                        };
                        assert(rest[q2] == workers[q]);
                        lemma_position_is_unique(rest, q2);
                    },
                }
            }
        },
    }
}

/// Adding a worker whose role is vacant keeps the list free of repeated
/// roles, registers the worker under its role and leaves every other role as
/// it was.
pub proof fn lemma_push(workers: Seq<Worker>, worker: Worker, other: ServiceKind)
    requires
        unique_roles(workers),
        entry(workers, worker.kind) is None,
    ensures
        unique_roles(workers.push(worker)),
        well_placed(workers) && is_slot_of(worker.conn, worker.kind) ==> well_placed(
            workers.push(worker),
        ),
        entry(workers.push(worker), worker.kind) == Some(worker),
        other != worker.kind ==> entry(workers.push(worker), other) == entry(workers, other),
{
    let more = workers.push(worker);
    if well_placed(workers) && is_slot_of(worker.conn, worker.kind) {
        assert forall|i: int| 0 <= i < more.len() implies is_slot_of(
            (#[trigger] more[i]).conn,
            more[i].kind,
        ) by {
            if i < workers.len() {
                assert(more[i] == workers[i]);
            }
        }
    }
    lemma_position_from(workers, worker.kind, 0);
    lemma_position_from(workers, other, 0);
    lemma_position_from(more, other, 0);
    assert(unique_roles(more));
    lemma_position_is_unique(more, workers.len() as int);
    if other != worker.kind {
        match position_from(workers, other, 0) {
            None => {},
            Some(q) => {
                assert(more[q] == workers[q]);
                lemma_position_is_unique(more, q);
            },
        }
    }
}

/// Workers of different roles have different connection numbers, and the
/// number that is free for a role is held by no worker at all.
pub proof fn lemma_connections_differ(workers: Seq<Worker>, kind: ServiceKind)
    requires
        unique_roles(workers),
        well_placed(workers),
    ensures
        forall|i: int, j: int|
            0 <= i < j < workers.len() ==> (#[trigger] workers[i]).conn != (
            #[trigger] workers[j]).conn,
        is_slot_of(free_slot(workers, kind), kind),
        forall|i: int|
            0 <= i < workers.len() ==> (#[trigger] workers[i]).conn != free_slot(workers, kind),
{
    lemma_position_from(workers, kind, 0);
    assert forall|i: int| 0 <= i < workers.len() implies (#[trigger] workers[i]).conn
        != free_slot(workers, kind) by {
        if workers[i].kind == kind {
            lemma_position_is_unique(workers, i);
        }
    }
}

/// The running workers.
#[derive(Debug)]
pub struct Registry {
    workers: Vec<Worker>,
}

impl View for Registry {
    type V = Seq<Worker>;

    /// The workers in the order in which they were registered.
    closed spec fn view(&self) -> Seq<Worker> {
        self.workers@
    }
}

impl Registry {
    /// No role has two workers, and each worker holds a connection number
    /// of its role.
    #[verifier::type_invariant]
    spec fn well_formed(self) -> bool {
        unique_roles(self.workers@) && well_placed(self.workers@)
    }

    /// A registry without workers.
    pub fn new() -> (registry: Self)
        ensures
            registry@ == Seq::<Worker>::empty(),
    {
        Registry { workers: Vec::new() }
    }

    /// The number of workers. No role has two of them, and each holds a
    /// connection number of its role.
    pub fn len(&self) -> (n: usize)
        ensures
            n == self@.len(),
            unique_roles(self@),
            well_placed(self@),
    {
        proof {
            use_type_invariant(self);
        }
        self.workers.len()
    }

    /// The worker at a position, in the order in which they were registered.
    pub fn get(&self, index: usize) -> (worker: Option<Worker>)
        ensures
            worker == (if index < self@.len() {
                Some(self@[index as int])
            } else {
                None
            }),
    {
        if index < self.workers.len() {
            Some(self.workers[index])
        } else {
            None
        }
    }

    fn position(&self, kind: ServiceKind) -> (pos: Option<usize>)
        ensures
            match pos {
                Some(p) => position_from(self@, kind, 0) == Some(p as int),
                None => position_from(self@, kind, 0) is None,
            },
    {
        let mut i: usize = 0;
        while i < self.workers.len()
            invariant
                i <= self@.len(),
                position_from(self@, kind, 0) == position_from(self@, kind, i as int),
            decreases self@.len() - i,
        {
            if self.workers[i].kind == kind {
                return Some(i);
            }
            i = i + 1;
        }
        None
    }

    /// The worker registered for a role.
    pub fn find(&self, kind: ServiceKind) -> (worker: Option<Worker>)
        ensures
            worker == entry(self@, kind),
    {
        match self.position(kind) {
            Some(p) => {
                proof {
                    lemma_position_from(self@, kind, 0);
                }
                Some(self.workers[p])
            },
            None => None,
        }
    }

    /// Takes the worker of a role out of the registry and returns it, so that
    /// it can be told to shut down. Without such a worker nothing changes.
    pub fn evict(&mut self, kind: ServiceKind) -> (gone: Option<Worker>)
        ensures
            gone == entry(old(self)@, kind),
            final(self)@ == without(old(self)@, kind),
    {
        proof {
            use_type_invariant(&*self);
            lemma_without(self@, kind, kind);
        }
        match self.position(kind) {
            Some(p) => {
                proof {
                    lemma_position_from(self@, kind, 0);
                }
                let mut workers: Vec<Worker> = Vec::new();
                std::mem::swap(&mut workers, &mut self.workers);
                let gone = workers.remove(p);
                self.workers = workers;
                Some(gone)
            },
            None => None,
        }
    }

    /// The connection number for the next worker of a role.
    pub fn slot_for(&self, kind: ServiceKind) -> (conn: u64)
        ensures
            conn == free_slot(self@, kind),
    {
        let first: u64 = match kind {
            ServiceKind::Spaces => 0,
            ServiceKind::Yuki => 2,
        };
        match self.find(kind) {
            Some(worker) => if worker.conn == first {
                first + 1
            } else {
                first
            },
            None => first,
        }
    }

    /// Registers a worker for a vacant role, behind the workers that are
    /// there, under a connection number of its role. A role that is taken
    /// has to be vacated by `evict` first, which hands out the worker to
    /// shut down.
    pub fn register(&mut self, worker: Worker)
        requires
            entry(old(self)@, worker.kind) is None,
            is_slot_of(worker.conn, worker.kind),
        ensures
            final(self)@ == old(self)@.push(worker),
    {
        proof {
            use_type_invariant(&*self);
            lemma_push(self@, worker, worker.kind);
        }
        let mut workers: Vec<Worker> = Vec::new();
        std::mem::swap(&mut workers, &mut self.workers);
        workers.push(worker);
        self.workers = workers;
    }
}

/// A change asked of the registry: a start that succeeded, or a stop.
pub enum RegistryOp {
    /// The worker took over its role.
    Started(Worker),
    /// The role was stopped.
    Stopped(ServiceKind),
}

/// The workers after one change. A worker that starts replaces the one that
/// held its role.
pub open spec fn apply(workers: Seq<Worker>, op: RegistryOp) -> Seq<Worker> {
    match op {
        RegistryOp::Started(worker) => without(workers, worker.kind).push(worker),
        RegistryOp::Stopped(kind) => without(workers, kind),
    }
}

/// The workers after a sequence of changes to an empty registry.
pub open spec fn replay(ops: Seq<RegistryOp>) -> Seq<Worker>
    decreases ops.len(),
{
    if ops.len() == 0 {
        Seq::empty()
    } else {
        apply(replay(ops.drop_last()), ops.last())
    }
}

/// The connection that the latest change to a role left in it: that of the
/// most recent start, unless a stop came after it.
pub open spec fn latest(ops: Seq<RegistryOp>, kind: ServiceKind) -> Option<u64>
    decreases ops.len(),
{
    if ops.len() == 0 {
        None
    } else {
        match ops.last() {
            RegistryOp::Started(worker) => if worker.kind == kind {
                Some(worker.conn)
            } else {
                latest(ops.drop_last(), kind)
            },
            RegistryOp::Stopped(k) => if k == kind {
                None
            } else {
                latest(ops.drop_last(), kind)
            },
        }
    }
}

/// After any sequence of starts and stops no role has two workers, and the
/// worker of a role is that of its most recent start.
pub proof fn lemma_one_worker_per_role(ops: Seq<RegistryOp>, kind: ServiceKind)
    ensures
        unique_roles(replay(ops)),
        lookup(replay(ops), kind) == latest(ops, kind),
    decreases ops.len(),
{
    if ops.len() > 0 {
        let before = replay(ops.drop_last());
        lemma_one_worker_per_role(ops.drop_last(), kind);
        match ops.last() {
            RegistryOp::Started(worker) => {
                lemma_without(before, worker.kind, kind);
                lemma_push(without(before, worker.kind), worker, kind);
            },
            RegistryOp::Stopped(k) => {
                lemma_without(before, k, kind);
            },
        }
    } else {
        assert(position_from(Seq::<Worker>::empty(), kind, 0) is None);
    }
}

} // verus!
