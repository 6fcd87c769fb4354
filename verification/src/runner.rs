//! The worker side: the roles a process can take, the one-byte commands it
//! obeys, how it reads its own command line, and what its watcher does with
//! each thing it sees on the connection to its supervisor.

use crate::text::{copy_strings, str_eq, texts};
use vstd::prelude::*;

verus! {

/// The role of a worker process.
#[derive(Copy, Clone, PartialEq, Eq, Debug, Structural)]
pub enum ServiceKind {
    Spaces,
    Yuki,
}

/// A command sent from the supervisor to a worker, one byte on the wire.
#[derive(Debug, Clone, Copy, PartialEq, Eq, Structural)]
pub enum ServiceCommand {
    Ping,
    Shutdown,
}

impl ServiceKind {
    /// The name under which a role is written on a command line.
    pub open spec fn name(self) -> Seq<char> {
        match self {
            ServiceKind::Spaces => "spaces"@,
            ServiceKind::Yuki => "yuki"@,
        }
    }

    /// The role that a name stands for, if it is the name of one.
    pub open spec fn named(name: Seq<char>) -> Option<ServiceKind> {
        if name == "spaces"@ {
            Some(ServiceKind::Spaces)
        } else if name == "yuki"@ {
            Some(ServiceKind::Yuki)
        } else {
            None
        }
    }

    /// The name of the role.
    pub fn as_str(&self) -> (name: &'static str)
        ensures
            name@ == self.name(),
    {
        match self {
            ServiceKind::Spaces => "spaces",
            ServiceKind::Yuki => "yuki",
        }
    }

    /// The role with the given name; `None` for any other text.
    pub fn from_str(s: &str) -> (kind: Option<Self>)
        ensures
            kind == Self::named(s@),
    {
        if str_eq(s, "spaces") {
            Some(ServiceKind::Spaces)
        } else if str_eq(s, "yuki") {
            Some(ServiceKind::Yuki)
        } else {
            None
        }
    }
}

/// Every role is found again from its own name, and a name that stands for a
/// role is the name of that role.
pub proof fn lemma_kind_name_round_trip(kind: ServiceKind, name: Seq<char>)
    ensures
        ServiceKind::named(kind.name()) == Some(kind),
        ServiceKind::named(name) == Some(kind) <==> name == kind.name(),
{
    reveal_strlit("spaces");
    reveal_strlit("yuki");
    assert("spaces"@.len() != "yuki"@.len());
}

impl ServiceCommand {
    /// The byte that stands for a command on the wire.
    pub open spec fn wire_byte(self) -> u8 {
        match self {
            ServiceCommand::Ping => 0u8,
            ServiceCommand::Shutdown => 1u8,
        }
    }

    /// The command that a byte stands for; no byte but 0 and 1 stands for one.
    pub open spec fn decoded(byte: u8) -> Option<ServiceCommand> {
        if byte == 0 {
            Some(ServiceCommand::Ping)
        } else if byte == 1 {
            Some(ServiceCommand::Shutdown)
        } else {
            None
        }
    }

    /// The byte to write for this command.
    pub fn to_byte(&self) -> (byte: u8)
        ensures
            byte == self.wire_byte(),
    {
        match self {
            ServiceCommand::Ping => 0,
            ServiceCommand::Shutdown => 1,
        }
    }

    /// The command read from the wire, `None` for a byte that is no command.
    pub fn from_byte(byte: u8) -> (command: Option<Self>)
        ensures
            command == Self::decoded(byte),
    {
        match byte {
            0 => Some(ServiceCommand::Ping),
            1 => Some(ServiceCommand::Shutdown),
            _ => None,
        }
    }
}

/// Writing a command and reading the byte back gives the command again, and
/// a byte that decodes to a command is the byte that this command is written
/// as.
pub proof fn lemma_wire_round_trip(command: ServiceCommand, byte: u8)
    ensures
        ServiceCommand::decoded(command.wire_byte()) == Some(command),
        ServiceCommand::decoded(byte) == Some(command) <==> byte == command.wire_byte(),
        ServiceCommand::decoded(byte) is None <==> byte >= 2,
{
}

/// The first position from `from` on at which `flag` stands in `args`.
pub open spec fn flag_position_from(args: Seq<Seq<char>>, flag: Seq<char>, from: int) -> Option<
    int,
>
    decreases args.len() - from,
{
    if from < 0 || from >= args.len() {
        None
    } else if args[from] == flag {
        Some(from)
    } else {
        flag_position_from(args, flag, from + 1)
    }
}

/// The first position at which `flag` stands in `args`.
pub open spec fn flag_position(args: Seq<Seq<char>>, flag: Seq<char>) -> Option<int> {
    flag_position_from(args, flag, 0)
}

/// What reading a flag leaves: the value that followed the flag's first
/// occurrence, and the arguments without the flag and that value. A flag that
/// stands last has no value and is still taken out; without the flag nothing
/// changes.
pub open spec fn take_flag(args: Seq<Seq<char>>, flag: Seq<char>) -> (
    Option<Seq<char>>,
    Seq<Seq<char>>,
) {
    match flag_position(args, flag) {
        None => (None, args),
        Some(p) => if p + 1 < args.len() {
            (Some(args[p + 1]), args.remove(p).remove(p))
        } else {
            (None, args.remove(p))
        },
    }
}

/// `flag_position_from` finds the least position not before `from` that holds
/// the flag, and finds none exactly when there is none.
pub proof fn lemma_flag_position_from(args: Seq<Seq<char>>, flag: Seq<char>, from: int)
    requires
        0 <= from,
    ensures
        match flag_position_from(args, flag, from) {
            Some(p) => from <= p < args.len() && args[p] == flag && forall|j: int|
                from <= j < p ==> args[j] != flag,
            None => forall|j: int| from <= j < args.len() ==> args[j] != flag,
        },
    decreases args.len() - from,
{
    if from < args.len() && args[from] != flag {
        lemma_flag_position_from(args, flag, from + 1);
    }
}

/// Reads the value of `flag` out of `args`: takes out the first occurrence of
/// the flag and the argument after it, and returns that argument.
pub fn read_arg(arg: &str, args: &mut Vec<String>) -> (value: Option<String>)
    ensures
        (match value {
            Some(v) => Some(v@),
            None => None,
        }, texts(final(args)@)) == take_flag(texts(old(args)@), arg@),
{
    let ghost before = texts(args@);
    let mut pos: usize = 0;
    while pos < args.len() && !str_eq(args[pos].as_str(), arg)
        invariant
            pos <= args@.len(),
            texts(args@) == before,
            flag_position(before, arg@) == flag_position_from(before, arg@, pos as int),
        decreases args@.len() - pos,
    {
        pos = pos + 1;
    }
    if pos < args.len() {
        assert(before[pos as int] == arg@);
        assert(flag_position(before, arg@) == Some(pos as int));
        let _flag = args.remove(pos);
        assert(texts(args@) =~= before.remove(pos as int));
        if pos < args.len() {
            let ghost mid = texts(args@);
            let value = args.remove(pos);
            assert(texts(args@) =~= mid.remove(pos as int));
            assert(value@ == before[pos + 1]);
            return Some(value);
        }
        None
    } else {
        assert(texts(args@) =~= before);
        None
    }
}

/// What a worker process learned from its command line.
pub struct ServiceRunner {
    attach_addr: Option<String>,
    kind: ServiceKind,
    args: Vec<String>,
}

/// The content of a `ServiceRunner`.
pub struct RunnerView {
    /// The supervisor's address, where one was given.
    pub attach_addr: Option<Seq<char>>,
    /// The role to run.
    pub kind: ServiceKind,
    /// The arguments left for the role itself.
    pub args: Seq<Seq<char>>,
}

impl View for ServiceRunner {
    type V = RunnerView;

    closed spec fn view(&self) -> RunnerView {
        RunnerView {
            attach_addr: match self.attach_addr {
                Some(addr) => Some(addr@),
                None => None,
            },
            kind: self.kind,
            args: texts(self.args@),
        }
    }
}

/// What a command line means for a worker. Without `--service` and a known
/// role after it the process is no worker. The value of `--attach`, where
/// there is one, is the supervisor's address; all other arguments are kept in
/// their order for the role.
pub open spec fn parsed(args: Seq<Seq<char>>) -> Option<RunnerView> {
    let (service, rest) = take_flag(args, "--service"@);
    match service {
        None => None,
        Some(name) => match ServiceKind::named(name) {
            None => None,
            Some(kind) => {
                let (addr, left) = take_flag(rest, "--attach"@);
                Some(RunnerView { attach_addr: addr, kind, args: left })
            },
        },
    }
}

impl ServiceRunner {
    /// Reads a command line; `None` when it does not ask for a worker.
    pub fn parse(args: &[String]) -> (runner: Option<Self>)
        ensures
            match runner {
                Some(r) => parsed(texts(args@)) == Some(r@),
                None => parsed(texts(args@)) is None,
            },
    {
        let mut args = copy_strings(args);
        let service = match read_arg("--service", &mut args) {
            Some(s) => s,
            None => return None,
        };
        let kind = match ServiceKind::from_str(service.as_str()) {
            Some(k) => k,
            None => return None,
        };
        let attach_addr = read_arg("--attach", &mut args);
        Some(Self { attach_addr, kind, args })
    }

    /// The role to run.
    pub fn kind(&self) -> (kind: ServiceKind)
        ensures
            kind == self@.kind,
    {
        self.kind
    }

    /// The supervisor's address; `None` for a worker that runs on its own.
    pub fn attach_addr(&self) -> (addr: Option<&String>)
        ensures
            match addr {
                Some(a) => self@.attach_addr == Some(a@),
                None => self@.attach_addr is None,
            },
    {
        self.attach_addr.as_ref()
    }

    /// The arguments for the role itself.
    pub fn args(&self) -> (args: &Vec<String>)
        ensures
            texts(args@) == self@.args,
    {
        &self.args
    }
}

/// What one read of a single byte from the supervisor's connection gave.
#[derive(Debug, Clone, Copy, PartialEq, Eq, Structural)]
pub enum ReadOutcome {
    /// The supervisor closed the connection: the read returned no byte.
    Closed,
    /// The read failed.
    Failed,
    /// One byte arrived.
    Byte(u8),
}

/// What the watcher of an attached worker sees while it waits.
#[derive(Debug, Clone, Copy, PartialEq, Eq, Structural)]
pub enum WatchEvent {
    /// The worker's own cancellation signal was fired.
    Cancelled,
    /// A read on the supervisor's connection ended.
    Read(ReadOutcome),
}

/// Why a watcher fires the worker's cancellation signal.
#[derive(Debug, Clone, Copy, PartialEq, Eq, Structural)]
pub enum StopReason {
    ParentDisconnected,
    ReadError,
    ShutdownCommand,
}

/// What the watcher does next.
#[derive(Debug, Clone, Copy, PartialEq, Eq, Structural)]
pub enum WatchAction {
    /// End the watcher; the worker is shutting down already.
    Stop,
    /// Fire the worker's cancellation signal, then end the watcher.
    FireAndStop(StopReason),
    /// The supervisor asked for a sign of life: pause, send nothing, go on.
    Acknowledge,
    /// The byte is no command: take note of it and go on.
    Ignore(u8),
}

/// How long a watcher pauses after a ping, in milliseconds.
pub const PING_PAUSE_MILLIS: u64 = 20;

impl WatchAction {
    /// Whether the action fires the worker's cancellation signal.
    pub open spec fn fires(self) -> bool {
        self is FireAndStop
    }

    /// Whether the watcher goes on reading after the action.
    pub open spec fn goes_on(self) -> bool {
        self is Acknowledge || self is Ignore
    }
}

/// The watcher's rule. A supervisor that went away, in whatever way, counts
/// as a request to shut down; so does the `Shutdown` byte. A `Ping` is
/// answered by staying connected, and an unknown byte is passed over.
pub open spec fn watch_rule(event: WatchEvent) -> WatchAction {
    match event {
        WatchEvent::Cancelled => WatchAction::Stop,
        WatchEvent::Read(ReadOutcome::Closed) => WatchAction::FireAndStop(
            StopReason::ParentDisconnected,
        ),
        WatchEvent::Read(ReadOutcome::Failed) => WatchAction::FireAndStop(StopReason::ReadError),
        WatchEvent::Read(ReadOutcome::Byte(byte)) => match ServiceCommand::decoded(byte) {
            Some(ServiceCommand::Ping) => WatchAction::Acknowledge,
            Some(ServiceCommand::Shutdown) => WatchAction::FireAndStop(
                StopReason::ShutdownCommand,
            ),
            None => WatchAction::Ignore(byte),
        },
    }
}

/// Decides what the watcher does with what it saw.
pub fn watch(event: WatchEvent) -> (action: WatchAction)
    ensures
        action == watch_rule(event),
{
    match event {
        WatchEvent::Cancelled => WatchAction::Stop,
        WatchEvent::Read(outcome) => match outcome {
            ReadOutcome::Closed => WatchAction::FireAndStop(StopReason::ParentDisconnected),
            ReadOutcome::Failed => WatchAction::FireAndStop(StopReason::ReadError),
            ReadOutcome::Byte(byte) => match ServiceCommand::from_byte(byte) {
                Some(ServiceCommand::Ping) => WatchAction::Acknowledge,
                Some(ServiceCommand::Shutdown) => WatchAction::FireAndStop(
                    StopReason::ShutdownCommand,
                ),
                None => WatchAction::Ignore(byte),
            },
        },
    }
}

/// The watcher goes on exactly after a byte other than `Shutdown`, and fires
/// the signal exactly when a read ended in anything else. It never fires on
/// the worker's own cancellation, so that each source of a shutdown reaches
/// the signal once.
pub proof fn lemma_watch_rule(event: WatchEvent)
    ensures
        watch_rule(event).goes_on() <==> (event matches WatchEvent::Read(ReadOutcome::Byte(b))
            && b != ServiceCommand::Shutdown.wire_byte()),
        watch_rule(event).fires() <==> (event is Read && !watch_rule(event).goes_on()),
        event is Cancelled ==> watch_rule(event) == WatchAction::Stop,
{
}

} // verus!
