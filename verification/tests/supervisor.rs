use akrond::registry::{Registry, Worker};
use akrond::runner::ServiceKind;
use akrond::supervisor::{
    Action, Event, Phase, StartError, Supervisor, COMMAND_QUEUE, HEARTBEAT_SECS,
};

fn strings(items: &[&str]) -> Vec<String> {
    items.iter().map(|s| s.to_string()).collect()
}

/// Starts a worker of a role and returns its connection number.
fn started(sup: &mut Supervisor, kind: ServiceKind) -> u64 {
    let conn = match sup.step(Event::StartRequested { kind, args: Vec::new() }) {
        Action::Spawn { conn, .. } => conn,
        other => panic!("no spawn but {:?}", other),
    };
    let mut action = sup.step(Event::Attached);
    if let Action::SendShutdown { conn: former } = action {
        assert_ne!(former, conn);
        action = sup.step(Event::ShutdownSent);
    }
    assert_eq!(action, Action::ReplyStart(Ok(())));
    assert_eq!(sup.connection(kind), Some(conn));
    conn
}

#[test]
fn start_then_stop_then_stop_again() {
    let mut sup = Supervisor::new(false);
    assert_eq!(sup.worker_count(), 0);
    let action = sup.step(Event::StartRequested {
        kind: ServiceKind::Spaces,
        args: strings(&["--port", "9000"]),
    });
    assert_eq!(
        action,
        Action::Spawn {
            kind: ServiceKind::Spaces,
            args: strings(&["--port", "9000"]),
            capture_logs: false,
            conn: 0
        }
    );
    assert_eq!(
        sup.phase(),
        Phase::Starting { worker: Worker { kind: ServiceKind::Spaces, conn: 0 } }
    );
    assert_eq!(sup.step(Event::Attached), Action::ReplyStart(Ok(())));
    assert_eq!(sup.connection(ServiceKind::Spaces), Some(0));
    assert_eq!(sup.worker_count(), 1);

    assert_eq!(
        sup.step(Event::StopRequested { kind: ServiceKind::Spaces }),
        Action::SendShutdown { conn: 0 }
    );
    assert_eq!(sup.connection(ServiceKind::Spaces), None);
    assert_eq!(sup.step(Event::ShutdownSent), Action::ReplyStop);
    assert_eq!(sup.worker_count(), 0);
    assert_eq!(sup.phase(), Phase::Idle);

    assert_eq!(sup.step(Event::StopRequested { kind: ServiceKind::Spaces }), Action::ReplyStop);
    assert_eq!(sup.worker_count(), 0);
    assert_eq!(sup.phase(), Phase::Idle);
}

#[test]
fn a_second_start_replaces_the_first() {
    let mut sup = Supervisor::new(true);
    assert_eq!(started(&mut sup, ServiceKind::Yuki), 2);
    assert_eq!(started(&mut sup, ServiceKind::Spaces), 0);
    let action = sup.step(Event::StartRequested { kind: ServiceKind::Yuki, args: Vec::new() });
    assert_eq!(
        action,
        Action::Spawn { kind: ServiceKind::Yuki, args: Vec::new(), capture_logs: true, conn: 3 }
    );
    // while the new worker is created the former one stays
    assert_eq!(sup.connection(ServiceKind::Yuki), Some(2));
    // the new worker is there: the former one is told to go first
    assert_eq!(sup.step(Event::Attached), Action::SendShutdown { conn: 2 });
    assert_eq!(sup.connection(ServiceKind::Yuki), None);
    assert_eq!(
        sup.phase(),
        Phase::Replacing { worker: Worker { kind: ServiceKind::Yuki, conn: 3 } }
    );
    assert_eq!(sup.step(Event::ShutdownSent), Action::ReplyStart(Ok(())));
    assert_eq!(sup.connection(ServiceKind::Yuki), Some(3));
    assert_eq!(sup.connection(ServiceKind::Spaces), Some(0));
    assert_eq!(sup.worker_count(), 2);
}

#[test]
fn the_two_numbers_of_a_role_take_turns() {
    let mut sup = Supervisor::new(false);
    assert_eq!(started(&mut sup, ServiceKind::Spaces), 0);
    assert_eq!(started(&mut sup, ServiceKind::Spaces), 1);
    assert_eq!(started(&mut sup, ServiceKind::Spaces), 0);
    assert_eq!(started(&mut sup, ServiceKind::Yuki), 2);
    assert_eq!(started(&mut sup, ServiceKind::Yuki), 3);
    sup.step(Event::StopRequested { kind: ServiceKind::Yuki });
    sup.step(Event::ShutdownSent);
    assert_eq!(started(&mut sup, ServiceKind::Yuki), 2);
}

#[test]
fn many_starts_leave_one_worker_for_each_role() {
    let mut sup = Supervisor::new(false);
    let mut latest = [None, None];
    for round in 0..10usize {
        let kind = if round % 3 == 0 { ServiceKind::Spaces } else { ServiceKind::Yuki };
        latest[usize::from(kind == ServiceKind::Yuki)] = Some(started(&mut sup, kind));
        assert!(sup.worker_count() <= 2);
    }
    assert_eq!(sup.worker_count(), 2);
    assert_eq!(sup.connection(ServiceKind::Spaces), latest[0]);
    assert_eq!(sup.connection(ServiceKind::Yuki), latest[1]);
}

#[test]
fn a_failed_start_is_reported_and_changes_nothing() {
    let mut sup = Supervisor::new(false);
    let first = started(&mut sup, ServiceKind::Yuki);
    sup.step(Event::StartRequested { kind: ServiceKind::Yuki, args: Vec::new() });
    let action =
        sup.step(Event::StartFailed { error: StartError::Spawn("no such file".to_string()) });
    assert_eq!(action, Action::ReplyStart(Err(StartError::Spawn("no such file".to_string()))));
    assert_eq!(sup.connection(ServiceKind::Yuki), Some(first));
    assert_eq!(sup.phase(), Phase::Idle);

    sup.step(Event::StartRequested { kind: ServiceKind::Spaces, args: Vec::new() });
    let action =
        sup.step(Event::StartFailed { error: StartError::Attach("timed out".to_string()) });
    assert_eq!(action, Action::ReplyStart(Err(StartError::Attach("timed out".to_string()))));
    assert_eq!(sup.connection(ServiceKind::Spaces), None);

    sup.step(Event::StartRequested { kind: ServiceKind::Spaces, args: Vec::new() });
    let action = sup.step(Event::StartFailed { error: StartError::Worker("bad".to_string()) });
    assert_eq!(action, Action::ReplyStart(Err(StartError::Worker("bad".to_string()))));
}

#[test]
fn a_tick_without_workers_does_nothing() {
    let mut sup = Supervisor::new(false);
    assert_eq!(sup.step(Event::Tick), Action::Wait);
    assert_eq!(sup.phase(), Phase::Idle);
}

#[test]
fn a_tick_pings_every_worker_in_order() {
    let mut sup = Supervisor::new(false);
    started(&mut sup, ServiceKind::Yuki);
    started(&mut sup, ServiceKind::Spaces);
    assert_eq!(sup.step(Event::Tick), Action::Ping { conn: 2 });
    assert_eq!(sup.phase(), Phase::Beating { at: 0 });
    assert_eq!(sup.step(Event::PingDone { alive: true }), Action::Ping { conn: 0 });
    assert_eq!(sup.step(Event::PingDone { alive: true }), Action::Wait);
    assert_eq!(sup.phase(), Phase::Idle);
    assert_eq!(sup.worker_count(), 2);
}

#[test]
fn one_failed_ping_stops_everything() {
    let mut sup = Supervisor::new(false);
    started(&mut sup, ServiceKind::Yuki);
    started(&mut sup, ServiceKind::Spaces);
    assert_eq!(sup.step(Event::Tick), Action::Ping { conn: 2 });
    assert_eq!(sup.step(Event::PingDone { alive: false }), Action::Cancel);
    assert_eq!(sup.phase(), Phase::Stopped);
    // nothing but `Exit` from here on: no second cancellation, no ping
    assert_eq!(sup.step(Event::Tick), Action::Exit);
    assert_eq!(sup.step(Event::PingDone { alive: false }), Action::Exit);
    assert_eq!(sup.step(Event::PingDone { alive: true }), Action::Exit);
    assert_eq!(sup.step(Event::Cancelled), Action::Exit);
    assert_eq!(
        sup.step(Event::StartRequested { kind: ServiceKind::Yuki, args: Vec::new() }),
        Action::Exit
    );
    assert_eq!(sup.step(Event::StopRequested { kind: ServiceKind::Yuki }), Action::Exit);
    assert_eq!(sup.phase(), Phase::Stopped);
}

#[test]
fn the_second_worker_failing_stops_everything_too() {
    let mut sup = Supervisor::new(false);
    started(&mut sup, ServiceKind::Yuki);
    started(&mut sup, ServiceKind::Spaces);
    sup.step(Event::Tick);
    assert_eq!(sup.step(Event::PingDone { alive: true }), Action::Ping { conn: 0 });
    assert_eq!(sup.step(Event::PingDone { alive: false }), Action::Cancel);
    assert_eq!(sup.step(Event::Tick), Action::Exit);
}

#[test]
fn the_cancellation_ends_the_loop_without_pings() {
    let mut sup = Supervisor::new(false);
    started(&mut sup, ServiceKind::Yuki);
    assert_eq!(sup.step(Event::Cancelled), Action::Exit);
    assert_eq!(sup.phase(), Phase::Stopped);
    assert_eq!(sup.step(Event::Tick), Action::Exit);
}

#[test]
fn events_out_of_turn_change_nothing() {
    let mut sup = Supervisor::new(false);
    assert_eq!(sup.step(Event::Attached), Action::Wait);
    assert_eq!(sup.step(Event::ShutdownSent), Action::Wait);
    assert_eq!(sup.step(Event::PingDone { alive: false }), Action::Wait);
    assert_eq!(sup.phase(), Phase::Idle);
    assert_eq!(sup.worker_count(), 0);
    sup.step(Event::StartRequested { kind: ServiceKind::Yuki, args: Vec::new() });
    assert_eq!(sup.step(Event::Tick), Action::Wait);
    assert_eq!(
        sup.phase(),
        Phase::Starting { worker: Worker { kind: ServiceKind::Yuki, conn: 2 } }
    );
}

#[test]
fn capture_flag_is_kept() {
    assert!(Supervisor::new(true).captures_logs());
    assert!(!Supervisor::new(false).captures_logs());
}

#[test]
fn timing_constants() {
    assert_eq!(HEARTBEAT_SECS, 1);
    assert_eq!(COMMAND_QUEUE, 20);
}

#[test]
fn registry_keeps_the_order_of_registration() {
    let mut registry = Registry::new();
    assert_eq!(registry.len(), 0);
    assert_eq!(registry.get(0), None);
    assert_eq!(registry.slot_for(ServiceKind::Yuki), 2);
    registry.register(Worker { kind: ServiceKind::Yuki, conn: 2 });
    assert_eq!(registry.slot_for(ServiceKind::Yuki), 3);
    assert_eq!(registry.slot_for(ServiceKind::Spaces), 0);
    registry.register(Worker { kind: ServiceKind::Spaces, conn: 1 });
    assert_eq!(registry.slot_for(ServiceKind::Spaces), 0);
    assert_eq!(registry.len(), 2);
    assert_eq!(registry.get(0), Some(Worker { kind: ServiceKind::Yuki, conn: 2 }));
    assert_eq!(registry.get(1), Some(Worker { kind: ServiceKind::Spaces, conn: 1 }));
    assert_eq!(registry.get(2), None);
    assert_eq!(
        registry.find(ServiceKind::Spaces),
        Some(Worker { kind: ServiceKind::Spaces, conn: 1 })
    );
}

#[test]
fn registry_evicts_one_role_only() {
    let mut registry = Registry::new();
    registry.register(Worker { kind: ServiceKind::Yuki, conn: 3 });
    registry.register(Worker { kind: ServiceKind::Spaces, conn: 0 });
    assert_eq!(
        registry.evict(ServiceKind::Yuki),
        Some(Worker { kind: ServiceKind::Yuki, conn: 3 })
    );
    assert_eq!(registry.len(), 1);
    assert_eq!(registry.find(ServiceKind::Yuki), None);
    assert_eq!(registry.get(0), Some(Worker { kind: ServiceKind::Spaces, conn: 0 }));
    assert_eq!(registry.evict(ServiceKind::Yuki), None);
    assert_eq!(registry.len(), 1);
}

#[test]
fn start_errors_say_what_went_wrong() {
    assert_eq!(
        StartError::Spawn("ENOENT".to_string()).describe(ServiceKind::Yuki),
        "Failed to spawn child service yuki"
    );
    assert_eq!(
        StartError::Attach("timeout".to_string()).describe(ServiceKind::Spaces),
        "Failed to accept child connection"
    );
    assert_eq!(
        StartError::Worker("port in use".to_string()).describe(ServiceKind::Spaces),
        "port in use"
    );
}
