use std::collections::HashMap;

use ldr_plc::alarms::WatchStep;
use ldr_plc::transfer::Frame;

use ldr_plc::alarms::{
    alarm_items, alarm_point, baseline_from_rows, prompt_of, step_from_regs, AlarmSnapshot,
    AlarmWatch, Edge, WATCH_M_CNT, WATCH_M_START,
};

fn coils(on: &[u16]) -> Vec<bool> {
    let mut v = vec![false; WATCH_M_CNT as usize];
    for &m in on {
        v[(m - WATCH_M_START) as usize] = true;
    }
    v
}

#[test]
fn items_follow_points() {
    let items = alarm_items(&coils(&[301, 320, 350]));
    assert_eq!(items.len(), 10);
    assert_eq!(items[1].addr, 301);
    assert!(items[1].on);
    assert!(!items[0].on);
    assert_eq!(items[7].addr, 320);
    assert_eq!(items[7].name, "暂停");
    assert!(items[7].on);
    assert_eq!(items[9].name, "上位机失联");
    assert!(!alarm_point(7).log);
    assert!(alarm_point(0).log);
}

#[test]
fn prompt_is_highest_address_on() {
    assert!(prompt_of(&coils(&[])).is_none());
    let p = prompt_of(&coils(&[400])).unwrap();
    assert_eq!((p.addr, p.name.as_str(), p.on), (400, "请按复位按钮", true));
    let p = prompt_of(&coils(&[400, 401])).unwrap();
    assert_eq!((p.addr, p.name.as_str()), (401, "请按脚踏"));
}

#[test]
fn step_register_is_signed() {
    assert_eq!(step_from_regs(&vec![]), None);
    assert_eq!(step_from_regs(&vec![0xFFFF]), Some(-1));
    assert_eq!(step_from_regs(&vec![7, 9]), Some(7));
}

#[test]
fn baseline_later_row_wins() {
    let m = baseline_from_rows(&vec![(300, 1), (301, 0), (300, 0), (302, 2)]);
    assert_eq!(m.get(&300), Some(&false));
    assert_eq!(m.get(&301), Some(&false));
    assert_eq!(m.get(&302), Some(&true));
    assert_eq!(m.len(), 3);
    let wrapped = baseline_from_rows(&vec![(300, 0), (65836, 5)]);
    assert_eq!(wrapped.get(&300), Some(&true));
    assert_eq!(wrapped.len(), 1);
}

#[test]
fn first_poll_aligns_without_edges() {
    let mut base = HashMap::new();
    base.insert(300u16, false);
    let mut w = AlarmWatch::new(base);
    let p = w.poll(&coils(&[300, 401]), Some(3)).unwrap();
    assert!(p.edges.is_empty());
    assert!(p.alarm_changed);
    assert!(p.prompt_changed);
    assert_eq!(p.prompt.as_ref().map(|x| x.addr), Some(401));
    assert_eq!(p.states[0], (300, true));
    assert_eq!(p.states.len(), 10);
    assert_eq!(p.snapshot.step_index, Some(3));
    assert_eq!(p.snapshot.alarms.len(), 10);
    assert!(!w.first);
    assert_eq!(w.prev.get(&300), Some(&true));
    assert_eq!(w.prev_prompt, Some(401));
}

#[test]
fn later_polls_log_edges() {
    let mut w = AlarmWatch::new(HashMap::new());
    w.poll(&coils(&[300, 320]), None).unwrap();
    let p = w.poll(&coils(&[301, 320]), None).unwrap();
    let e: Vec<(u16, bool)> = p.edges.iter().map(|e| (e.addr, e.raised)).collect();
    assert_eq!(e, vec![(300, false), (301, true)]);
    assert_eq!(p.edges[0].kind(), "cleared");
    assert_eq!(p.edges[1].kind(), "raised");
    assert_eq!(p.edges[1].name, "臀腿轴报警");
    assert!(p.alarm_changed);
    assert!(!p.prompt_changed);
}

#[test]
fn pause_point_changes_are_shown_not_logged() {
    let mut w = AlarmWatch::new(HashMap::new());
    w.poll(&coils(&[]), None).unwrap();
    let p = w.poll(&coils(&[320]), None).unwrap();
    assert!(p.edges.is_empty());
    assert!(p.alarm_changed);
}

#[test]
fn repeat_poll_is_quiet() {
    let mut w = AlarmWatch::new(HashMap::new());
    w.poll(&coils(&[310, 400]), None).unwrap();
    w.poll(&coils(&[311, 400]), None).unwrap();
    let p = w.poll(&coils(&[311, 400]), Some(1)).unwrap();
    assert!(p.edges.is_empty());
    assert!(!p.alarm_changed);
    assert!(!p.prompt_changed);
}

#[test]
fn restart_baseline_suppresses_known_alarms() {
    let base = baseline_from_rows(&vec![(303, 1)]);
    let mut w = AlarmWatch::new(base);
    w.poll(&coils(&[303]), None).unwrap();
    let p = w.poll(&coils(&[303]), None).unwrap();
    assert!(p.edges.is_empty());
}

#[test]
fn short_coil_read_is_skipped() {
    let mut w = AlarmWatch::new(HashMap::new());
    assert!(w.poll(&vec![true; 50], Some(2)).is_none());
    assert!(w.first);
}

#[test]
fn default_snapshot_is_empty() {
    let s = AlarmSnapshot::default();
    assert!(s.alarms.is_empty() && s.prompt.is_none() && s.step_index.is_none());
    let e = Edge { addr: 1, name: String::new(), raised: true };
    assert_eq!(e.kind(), "raised");
}

#[test]
fn observe_tick_decisions() {
    let mut w = AlarmWatch::new(HashMap::new());
    assert!(matches!(w.observe(&Frame::Lost, &Frame::Data(vec![1])), WatchStep::Downline));
    assert!(matches!(w.observe(&Frame::Data(coils(&[])), &Frame::Lost), WatchStep::Downline));
    assert!(matches!(
        w.observe(&Frame::Refused, &Frame::Data(vec![5])),
        WatchStep::Skipped { step: Some(5) }
    ));
    assert!(matches!(
        w.observe(&Frame::Data(vec![true; 10]), &Frame::Refused),
        WatchStep::Skipped { step: None }
    ));
    assert!(w.first);
    match w.observe(&Frame::Data(coils(&[300])), &Frame::Data(vec![0xFFFE])) {
        WatchStep::Polled { poll, step } => {
            assert_eq!(step, Some(-2));
            assert!(poll.edges.is_empty());
            assert_eq!(poll.snapshot.step_index, Some(-2));
        }
        _ => panic!("expected a poll"),
    }
    assert!(!w.first);
}
