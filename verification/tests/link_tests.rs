use ldr_plc::heartbeat::{Heartbeat, HeartbeatAction, ReadOutcome, WriteOutcome};
use ldr_plc::status::StatusKind;
use ldr_plc::subscriptions::{SubGroup, SubscribeOutcome, Subscriptions};
use ldr_plc::supervisor::{backoff_after_failure, supervisor_action, OnlineAction, Supervisor, SupervisorAction};

#[test]
fn heartbeat_read_period() {
    assert_eq!(Heartbeat::new(100, 1000, 3).read_every(), 10);
    assert_eq!(Heartbeat::new(100, 50, 3).read_every(), 1);
    assert_eq!(Heartbeat::new(300, 1000, 3).read_every(), 3);
}

#[test]
fn heartbeat_read_due_only_after_write() {
    let mut h = Heartbeat::new(100, 200, 3);
    h.tick();
    assert!(!h.read_due(WriteOutcome::Written));
    h.tick();
    assert!(h.read_due(WriteOutcome::Written));
    assert!(!h.read_due(WriteOutcome::Refused));
}

#[test]
fn heartbeat_lost_drops_at_once() {
    let mut h = Heartbeat::new(100, 1000, 3);
    assert_eq!(h.finish(WriteOutcome::Lost, &ReadOutcome::Skipped), HeartbeatAction::Downline);
    let mut h = Heartbeat::new(100, 1000, 3);
    assert_eq!(h.finish(WriteOutcome::Written, &ReadOutcome::Lost), HeartbeatAction::Downline);
}

#[test]
fn heartbeat_consecutive_failures_drop_link() {
    let mut h = Heartbeat::new(100, 100, 3);
    let v = h.next_value();
    assert_eq!(h.last_value(), v);
    assert_eq!(h.finish(WriteOutcome::Refused, &ReadOutcome::Skipped), HeartbeatAction::Continue);
    let wrong = ReadOutcome::Regs(vec![h.last_value().wrapping_add(1)]);
    assert_eq!(h.finish(WriteOutcome::Written, &wrong), HeartbeatAction::Continue);
    assert_eq!(h.read_fails(), 2);
    assert_eq!(h.finish(WriteOutcome::Written, &ReadOutcome::Refused), HeartbeatAction::Downline);
}

#[test]
fn heartbeat_good_tick_clears_count() {
    let mut h = Heartbeat::new(100, 100, 2);
    h.next_value();
    assert_eq!(h.finish(WriteOutcome::Refused, &ReadOutcome::Skipped), HeartbeatAction::Continue);
    let good = ReadOutcome::Regs(vec![h.last_value()]);
    assert_eq!(h.finish(WriteOutcome::Written, &good), HeartbeatAction::Continue);
    assert_eq!(h.read_fails(), 0);
    let two = ReadOutcome::Regs(vec![h.last_value(), h.last_value()]);
    assert_eq!(h.finish(WriteOutcome::Written, &two), HeartbeatAction::Continue);
    assert_eq!(h.read_fails(), 1);
    assert_eq!(h.finish(WriteOutcome::Written, &ReadOutcome::Skipped), HeartbeatAction::Continue);
    assert_eq!(h.read_fails(), 0);
}

#[test]
fn supervisor_decisions() {
    assert_eq!(supervisor_action(true, false, false), SupervisorAction::WaitForWake);
    assert_eq!(supervisor_action(false, true, true), SupervisorAction::WaitForWake);
    assert_eq!(
        supervisor_action(false, false, false),
        SupervisorAction::Dial { status: StatusKind::Connecting }
    );
    assert_eq!(
        supervisor_action(false, false, true),
        SupervisorAction::Dial { status: StatusKind::Reconnecting }
    );
}

#[test]
fn backoff_schedule_holds_at_last() {
    let b = vec![1000, 2000, 5000, 10000];
    let mut fails = 0u32;
    let mut seen = Vec::new();
    for _ in 0..6 {
        let (d, f) = backoff_after_failure(&b, fails);
        seen.push(d);
        fails = f;
    }
    assert_eq!(seen, vec![1000, 2000, 5000, 10000, 10000, 10000]);
    assert_eq!(backoff_after_failure(&b, u32::MAX), (10000, u32::MAX));
}

#[test]
fn status_names() {
    assert_eq!(StatusKind::Connecting.as_str(), "connecting");
    assert_eq!(StatusKind::Online.as_str(), "online");
    assert_eq!(StatusKind::Reconnecting.as_str(), "reconnecting");
    assert_eq!(StatusKind::Offline.as_str(), "offline");
}

#[test]
fn subscription_groups() {
    assert_eq!(SubGroup::parse("telemetry"), Some(SubGroup::Telemetry));
    assert_eq!(SubGroup::parse("glstep"), Some(SubGroup::GlStep));
    assert_eq!(SubGroup::parse("Telemetry"), None);
    assert_eq!(SubGroup::parse(" glstep"), None);
}

#[test]
fn subscription_reference_counts() {
    let mut s = Subscriptions::new();
    assert_eq!(s.subscribe(SubGroup::Telemetry), SubscribeOutcome::Started);
    assert_eq!(s.subscribe(SubGroup::Telemetry), SubscribeOutcome::Joined);
    assert_eq!(s.subscribe(SubGroup::GlStep), SubscribeOutcome::Started);
    assert!(!s.unsubscribe(SubGroup::Telemetry));
    assert!(s.unsubscribe(SubGroup::Telemetry));
    assert!(!s.unsubscribe(SubGroup::Telemetry));
    assert_eq!(s, Subscriptions { telemetry: 0, glstep: 1 });
}

#[test]
fn supervisor_state_machine() {
    let mut sup = Supervisor::new();
    assert_eq!(sup.next_action(true, false), SupervisorAction::WaitForWake);
    assert_eq!(
        sup.next_action(false, false),
        SupervisorAction::Dial { status: StatusKind::Connecting }
    );
    let b = vec![100, 300];
    assert_eq!(sup.dial_failed(&b), 100);
    assert_eq!(sup.dial_failed(&b), 300);
    assert_eq!(sup.dial_failed(&b), 300);
    assert_eq!(
        sup.dial_succeeded(),
        vec![
            OnlineAction::KeepLink,
            OnlineAction::SetOnline,
            OnlineAction::ReleaseHeld,
            OnlineAction::StartHeartbeat,
            OnlineAction::StartAlarmWatch,
        ]
    );
    assert_eq!(sup.next_action(false, true), SupervisorAction::WaitForWake);
    assert_eq!(
        sup.next_action(false, false),
        SupervisorAction::Dial { status: StatusKind::Reconnecting }
    );
    assert_eq!(sup.dial_failed(&b), 100);
}

#[test]
fn heartbeat_limit_zero_drops_on_first_failure() {
    let mut h = Heartbeat::new(100, 100, 0);
    assert_eq!(h.finish(WriteOutcome::Refused, &ReadOutcome::Skipped), HeartbeatAction::Downline);
}
