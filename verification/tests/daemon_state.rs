//! Tests of what the daemon remembers for its dashboard.

use lora_online::lora_server::daemon_state::{DaemonState, LOG_CAPACITY};
use lora_online::lora_server::health::{health_answer, Reachability};
use lora_online::lora_server::version::{version_with, VERSION};

#[test]
fn daemon_state_test_push_log_evicts_oldest_past_capacity() {
    let mut state = DaemonState::default();
    for i in 0..LOG_CAPACITY + 5 {
        state.push_log(format!("line {i}"));
    }
    assert_eq!(state.log.len(), LOG_CAPACITY);
    assert_eq!(state.log.front().unwrap().line, "line 5");
    assert_eq!(state.log.back().unwrap().line, format!("line {}", LOG_CAPACITY + 4));
}

#[test]
fn test_seq_keeps_increasing_past_eviction() {
    let mut state = DaemonState::default();
    for _ in 0..LOG_CAPACITY + 5 {
        state.push_log("line".to_string());
    }
    assert_eq!(state.log.front().unwrap().seq, 6);
    assert_eq!(state.log.back().unwrap().seq, (LOG_CAPACITY + 5) as u64);
}

#[test]
fn test_record_heartbeat_preserves_battery_when_not_resent() {
    let mut state = DaemonState::default();
    state.record_heartbeat(5, Some((80, 3900)), None);
    state.record_heartbeat(5, None, None);
    let node = &state.nodes[&5];
    assert_eq!(node.battery_pct, Some(80));
    assert_eq!(node.battery_mv, Some(3900));
}

#[test]
fn test_record_heartbeat_preserves_si_present_when_not_resent() {
    let mut state = DaemonState::default();
    state.record_heartbeat(5, None, Some(true));
    state.record_heartbeat(5, None, None);
    assert_eq!(state.nodes[&5].si_present, Some(true));
}

#[test]
fn test_record_heartbeat_updates_si_present_when_it_changes() {
    let mut state = DaemonState::default();
    state.record_heartbeat(5, None, Some(true));
    state.record_heartbeat(5, None, Some(false));
    assert_eq!(state.nodes[&5].si_present, Some(false));
}

#[test]
fn test_record_version_tracks_separately_from_heartbeat() {
    let mut state = DaemonState::default();
    state.record_heartbeat(5, Some((80, 3900)), None);
    state.record_version(5, "0.1.0+a1b2c3d4".to_string());
    let node = &state.nodes[&5];
    assert_eq!(node.version.as_deref(), Some("0.1.0+a1b2c3d4"));
    assert_eq!(node.battery_pct, Some(80));
}

#[test]
fn test_record_version_overwrites_previous_value() {
    let mut state = DaemonState::default();
    state.record_version(5, "0.1.0+a1b2c3d4".to_string());
    state.record_version(5, "0.1.0+deadbeef.dirty".to_string());
    assert_eq!(state.nodes[&5].version.as_deref(), Some("0.1.0+deadbeef.dirty"));
}

#[test]
fn test_record_punch_tracks_separately_from_heartbeat() {
    let mut state = DaemonState::default();
    state.record_punch(7, Some(-80));
    let node = &state.nodes[&7];
    assert!(node.last_punch.is_some());
    assert!(node.last_heartbeat.is_none());
    assert_eq!(node.last_rssi, Some(-80));
    assert_eq!(node.punch_count, 1);
}

#[test]
fn test_record_punch_increments_count_per_node() {
    let mut state = DaemonState::default();
    state.record_punch(7, Some(-80));
    state.record_punch(7, Some(-75));
    state.record_punch(9, Some(-60));

    assert_eq!(state.nodes[&7].punch_count, 2);
    assert_eq!(state.nodes[&9].punch_count, 1);
    assert_eq!(state.nodes[&7].last_rssi, Some(-75));
}

#[test]
fn test_health_server_reports_ok_once_radio_ready() {
    assert_eq!(health_answer(true), (200, "ok"));
}

#[test]
fn test_health_server_reports_503_when_radio_not_ready() {
    assert_eq!(health_answer(false), (503, "lora module not found"));
}

#[test]
fn test_health_checker_detects_reachable_then_unreachable() {
    let mut r = Reachability::new();
    assert!(r.changed(true));
    assert!(!r.changed(true));
    assert!(r.changed(false));
    assert_eq!(r.last, Some(false));
}

#[test]
fn test_version_has_exactly_one_plus_and_nonempty_parts() {
    let parts: Vec<&str> = VERSION.split('+').collect();
    assert_eq!(parts.len(), 2, "VERSION should have exactly one '+': {VERSION}");
    assert!(
        !parts[0].is_empty() && !parts[1].is_empty(),
        "VERSION had an empty part: {VERSION}"
    );
    assert_eq!(version_with("0.1.0", "a1b2c3d4"), "0.1.0+a1b2c3d4");
}
