//! How a worker process is launched: the command line that the supervisor
//! gives it, what becomes of its standard streams, and the arguments of the
//! two workers of the daemon.

use crate::runner::{
    lemma_flag_position_from, lemma_kind_name_round_trip, parsed, take_flag, RunnerView,
    ServiceKind,
};
use crate::text::texts;
use vstd::prelude::*;
use vstd::string::StringExecFns;

verus! {

/// The arguments of a worker process: the role, the supervisor's address,
/// then the arguments that the caller gave for the role.
pub open spec fn worker_argv_text(kind: ServiceKind, addr: Seq<char>, args: Seq<Seq<char>>) -> Seq<
    Seq<char>,
> {
    seq!["--service"@, kind.name(), "--attach"@, addr] + args
}

/// The arguments to launch a worker with.
pub fn worker_argv(kind: ServiceKind, addr: &str, args: &Vec<String>) -> (argv: Vec<String>)
    ensures
        texts(argv@) == worker_argv_text(kind, addr@, texts(args@)),
{
    let mut argv: Vec<String> = Vec::new();
    argv.push("--service".to_string());
    argv.push(kind.as_str().to_string());
    argv.push("--attach".to_string());
    argv.push(addr.to_string());
    let ghost head = texts(argv@);
    assert(head =~= seq!["--service"@, kind.name(), "--attach"@, addr@]);
    let mut i: usize = 0;
    while i < args.len()
        invariant
            i <= args@.len(),
            texts(argv@) == head + texts(args@).take(i as int),
        decreases args@.len() - i,
    {
        let ghost before = texts(argv@);
        argv.push(args[i].clone());
        assert(texts(argv@) =~= before.push(args@[i as int]@));
        assert(texts(args@).take(i + 1) =~= texts(args@).take(i as int).push(args@[i as int]@));
        i = i + 1;
    }
    assert(texts(args@).take(args@.len() as int) =~= texts(args@));
    argv
}

/// The name under which a worker process shows itself: `akrond-` and the
/// name of its role.
pub fn worker_title(kind: ServiceKind) -> (title: String)
    ensures
        title@ == "akrond-"@ + kind.name(),
{
    let mut title = "akrond-".to_string();
    title.append(kind.as_str());
    title
}

/// A worker reads from its command line what the supervisor wrote there: its
/// role, the supervisor's address, and the caller's arguments behind the
/// program's name.
pub proof fn lemma_worker_reads_its_launch(
    program: Seq<char>,
    kind: ServiceKind,
    addr: Seq<char>,
    args: Seq<Seq<char>>,
)
    requires
        program != "--service"@,
        program != "--attach"@,
    ensures
        parsed(seq![program] + worker_argv_text(kind, addr, args)) == Some(
            RunnerView { attach_addr: Some(addr), kind, args: seq![program] + args },
        ),
{
    let line = seq![program] + worker_argv_text(kind, addr, args);
    lemma_flag_position_from(line, "--service"@, 0);
    assert(line[0] == program);
    assert(line[1] == "--service"@);
    assert(line[2] == kind.name());
    let rest = line.remove(1).remove(1);
    assert(take_flag(line, "--service"@) == (Some(kind.name()), rest));
    lemma_kind_name_round_trip(kind, kind.name());
    assert(rest =~= seq![program, "--attach"@, addr] + args);
    lemma_flag_position_from(rest, "--attach"@, 0);
    assert(rest[0] == program);
    assert(rest[1] == "--attach"@);
    assert(rest[2] == addr);
    assert(rest.remove(1).remove(1) =~= seq![program] + args);
}

/// What a standard stream of a worker is connected to.
#[derive(Debug, Clone, Copy, PartialEq, Eq, Structural)]
pub enum StdioMode {
    /// The stream of the supervisor itself.
    Inherit,
    /// A pipe that the supervisor reads.
    Piped,
}

/// The standard streams of a worker.
#[derive(Debug, Clone, Copy, PartialEq, Eq, Structural)]
pub struct StdioPlan {
    pub stdin: StdioMode,
    pub stdout: StdioMode,
    pub stderr: StdioMode,
}

/// The streams of a worker: the input is always the supervisor's own; the
/// two outputs are piped where logs are captured, and the supervisor's own
/// where they are not.
pub open spec fn stdio_rule(capture_logs: bool) -> StdioPlan {
    let output = if capture_logs {
        StdioMode::Piped
    } else {
        StdioMode::Inherit
    };
    StdioPlan { stdin: StdioMode::Inherit, stdout: output, stderr: output }
}

/// The standard streams to launch a worker with.
pub fn stdio_plan(capture_logs: bool) -> (plan: StdioPlan)
    ensures
        plan == stdio_rule(capture_logs),
{
    if capture_logs {
        StdioPlan { stdin: StdioMode::Inherit, stdout: StdioMode::Piped, stderr: StdioMode::Piped }
    } else {
        StdioPlan {
            stdin: StdioMode::Inherit,
            stdout: StdioMode::Inherit,
            stderr: StdioMode::Inherit,
        }
    }
}

/// The address from which the daemon fetches its checkpoint.
pub fn checkpoint_url() -> (url: &'static str)
    ensures
        url@ == "https://checkpoint.akron.io/protocol.sdb"@,
{
    "https://checkpoint.akron.io/protocol.sdb"
}

/// The arguments of the daemon's light client: its data directory and the
/// prune point taken from the checkpoint.
pub fn yuki_args(data_dir: &str, prune_point: &str) -> (args: Vec<String>)
    ensures
        texts(args@) == seq!["--data-dir"@, data_dir@, "--prune-point"@, prune_point@],
{
    let mut args: Vec<String> = Vec::new();
    args.push("--data-dir".to_string());
    args.push(data_dir.to_string());
    args.push("--prune-point".to_string());
    args.push(prune_point.to_string());
    assert(texts(args@) =~= seq!["--data-dir"@, data_dir@, "--prune-point"@, prune_point@]);
    args
}

/// The arguments of the daemon's indexer: the light client to read the chain
/// from, and its data directory.
pub fn spaces_args(data_dir: &str) -> (args: Vec<String>)
    ensures
        texts(args@) == seq![
            "--bitcoin-rpc-url"@,
            "http://127.0.0.1:8225"@,
            "--data-dir"@,
            data_dir@,
            "--bitcoin-rpc-light"@,
        ],
{
    let mut args: Vec<String> = Vec::new();
    args.push("--bitcoin-rpc-url".to_string());
    args.push("http://127.0.0.1:8225".to_string());
    args.push("--data-dir".to_string());
    args.push(data_dir.to_string());
    args.push("--bitcoin-rpc-light".to_string());
    assert(texts(args@) =~= seq![
        "--bitcoin-rpc-url"@,
        "http://127.0.0.1:8225"@,
        "--data-dir"@,
        data_dir@,
        "--bitcoin-rpc-light"@,
    ]);
    args
}

/// What the caller is told when a start request did not reach the supervisor
/// or was not answered.
pub fn start_failure(kind: ServiceKind, cause: &str) -> (text: String)
    ensures
        text@ == "Could not spawn service "@ + kind.name() + ": "@ + cause@,
{
    let mut text = "Could not spawn service ".to_string();
    text.append(kind.as_str());
    text.append(": ");
    text.append(cause);
    text
}

/// What the caller is told when a stop request did not reach the supervisor
/// or was not answered.
pub fn stop_failure(kind: ServiceKind, cause: &str) -> (text: String)
    ensures
        text@ == "Could not shutdown service "@ + kind.name() + ": "@ + cause@,
{
    let mut text = "Could not shutdown service ".to_string();
    text.append(kind.as_str());
    text.append(": ");
    text.append(cause);
    text
}

} // verus!
