//! Tests of the daemon's decisions, driven as its loop drives them.

use lora_online::esp32_node::node::encode_heartbeat;
use lora_online::lora_server::daemon::{
    CommandStep, Daemon, Effect, PunchStep, CMD_MAX_ATTEMPTS, CMD_RETRY_INTERVAL_MS,
};
use lora_online::lora_server::daemon_state::DaemonState;
use lora_online::lora_server::backend::parse_packed_heartbeat;
use lora_online::lora_server::protocol::{encode_punch_ack, Frame, Setting};
use lora_online::lora_server::punch_buffer::PunchBuffer;
use lora_online::sportident::{CardReadout, ControlPunch};

/// A daemon with its buffer and log, and a radio that always sends.
struct Station {
    daemon: Daemon,
    buffer: PunchBuffer,
    state: DaemonState,
    sent: Vec<(u16, String)>,
}

impl Station {
    fn new(own_addr: u16, dest: u16, heartbeat: u64, relay: bool) -> Station {
        Station {
            daemon: Daemon::new(own_addr, dest, heartbeat, relay, 0),
            buffer: PunchBuffer::new(),
            state: DaemonState::default(),
            sent: Vec::new(),
        }
    }

    fn run(&mut self, effects: Vec<Effect>) {
        for e in effects {
            match &e {
                Effect::Send { dest, shown, .. } => {
                    self.sent.push((*dest, shown.clone()));
                    if let Some(line) = e.outcome_line(None) {
                        self.state.push_log(line);
                    }
                }
                Effect::Log(line) => self.state.push_log(line.clone()),
                Effect::Record { card_id, station, time_s, source } => {
                    self.buffer.record(*card_id, *station, *time_s, source).unwrap();
                }
                Effect::MarkSent(id) => self.buffer.mark_sent(*id),
                Effect::NodePunch { node, rssi } => self.state.record_punch(*node, *rssi),
                Effect::NodeHeartbeat { node, battery, si_present } => {
                    self.state.record_heartbeat(*node, *battery, *si_present)
                }
                Effect::NodeVersion { node, version } => {
                    self.state.record_version(*node, version.clone())
                }
            }
        }
    }

    fn command(&mut self, cmd: &str, now: u64) {
        match self.daemon.command(cmd, now) {
            CommandStep::Done(effects) => self.run(effects),
            CommandStep::RecordTest { card_id, station, time_s } => {
                self.buffer.record(card_id, station, time_s, "test").unwrap();
                let line = self.daemon.test_punch_recorded(card_id, station, time_s, None);
                self.state.push_log(line);
            }
            CommandStep::Clear(id) => {
                let cleared = self.buffer.clear_local_unsent(id);
                let line = self.daemon.punch_cleared(id, Ok(cleared));
                self.state.push_log(line);
            }
            CommandStep::ClearAll => {
                let n = self.buffer.clear_all_local_unsent();
                let line = self.daemon.punches_cleared(Ok(n));
                self.state.push_log(line);
            }
        }
    }

    fn tick(&mut self, now: u64) {
        let retries = self.daemon.retry_commands(now);
        self.run(retries);
        if let Some(e) = self.daemon.heartbeat(now) {
            self.run(vec![e]);
        }
        let unsent = self.buffer.unsent_local();
        match self.daemon.punch_step(now, &unsent) {
            PunchStep::Idle => {}
            PunchStep::First(batch, e) => {
                self.run(vec![e]);
                self.daemon.punch_sent(batch, now);
            }
            PunchStep::Again(e) => self.run(vec![e]),
        }
    }

    fn receive(&mut self, src: u16, text: &str) {
        let effects = self.daemon.received(src, Some(-80), text.as_bytes());
        self.run(effects);
    }

    fn logged(&self, words: &str) -> bool {
        self.state.log.iter().any(|e| e.line.contains(words))
    }
}

fn card(card_id: u32, time_s: u32) -> CardReadout {
    CardReadout { card_id, punches: vec![ControlPunch { station: 1, time_s }] }
}

#[test]
fn test_clearpunch_cancels_in_flight_pending_punch_so_next_punch_can_go_out() {
    let mut s = Station::new(5, 1, 0, false);
    let id1 = s.buffer.record(111, 31, 100, "local").unwrap();
    s.tick(0);
    assert!(s.logged("111"), "first punch (card 111) was never sent");

    s.buffer.record(222, 32, 200, "local").unwrap();
    s.tick(10);
    assert!(!s.logged("222"));
    s.command(&format!("CLEARPUNCH {}", id1), 20);
    s.tick(30);
    assert!(s.logged("222"), "clearing the in-flight punch never let the next one go out");
    assert!(s.buffer.unsent().iter().all(|p| p.id != id1));
}

#[test]
fn test_clearpunches_command_removes_all_unsent_punches() {
    let mut s = Station::new(5, 1, 0, false);
    s.buffer.record(111, 31, 100, "local").unwrap();
    s.buffer.record(222, 32, 200, "local").unwrap();
    s.command("CLEARPUNCHES", 0);
    assert!(s.buffer.unsent().is_empty());
}

#[test]
fn test_heartbeat_skipped_when_dest_equals_own_addr() {
    let mut s = Station::new(1, 1, 1, false);
    for now in (0..2_400).step_by(50) {
        s.tick(now);
    }
    let has_hb_line = s.state.log.iter().any(|e| e.line.starts_with("HB "));
    assert!(!has_hb_line, "sent a heartbeat to itself: dest == own_addr");
}

#[test]
fn test_local_punch_send_skipped_when_dest_equals_own_addr() {
    let mut s = Station::new(1, 1, 0, false);
    s.buffer.record(111, 31, 100, "test").unwrap();
    for now in (0..6_000).step_by(50) {
        s.tick(now);
    }
    let attempted_send = s
        .state
        .log
        .iter()
        .any(|e| e.line.starts_with("TX ") || e.line.starts_with("ERR TX"));
    assert!(!attempted_send, "attempted to radio-send a local punch to itself: dest == own_addr");
    assert_eq!(
        s.buffer.unsent().len(),
        1,
        "punch should remain buffered, not consumed by a self-send attempt"
    );
}

#[test]
fn test_run_daemon_loop_only_consumes_punches_addressed_to_own_addr() {
    let mut s = Station::new(2, 1, 0, false);
    let ours = card(111, 100).to_addressed_payload(10, 2);
    let not_ours = card(222, 200).to_addressed_payload(10, 99);
    s.receive(10, &ours);
    s.receive(10, &not_ours);

    let unsent = s.buffer.unsent();
    assert!(unsent.iter().any(|p| p.card_id == 111), "the punch addressed to us was never buffered");
    assert!(
        unsent.iter().all(|p| p.card_id != 222),
        "punch not addressed to us was consumed anyway"
    );
    assert_eq!(s.state.nodes[&10].punch_count, 1);
    assert_eq!(s.sent, vec![(10, "PACK 10 111".to_string())]);
}

#[test]
fn heartbeat_goes_out_in_time() {
    let mut s = Station::new(5, 1, 2, false);
    s.tick(1_999);
    assert!(s.sent.is_empty());
    s.tick(2_000);
    assert_eq!(s.sent, vec![(1, "HB".to_string())]);
    assert!(s.logged("HB 1"));
    s.tick(2_050);
    assert_eq!(s.sent.len(), 1);
}

#[test]
fn punch_is_sent_again_until_acknowledged() {
    let mut s = Station::new(5, 1, 0, false);
    let id = s.buffer.record(111, 31, 100, "local").unwrap();
    s.tick(0);
    s.tick(4_999);
    assert_eq!(s.sent.len(), 1);
    s.tick(5_000);
    assert_eq!(s.sent.len(), 2);
    assert_eq!(s.sent[0], s.sent[1]);
    assert_eq!(s.sent[0].1, "PUNCH 5 1 111 31:100");
    s.receive(1, "PACK 5 111");
    assert!(s.buffer.unsent().iter().all(|p| p.id != id));
    assert!(s.logged("PACKOK 111 1"));
    s.tick(20_000);
    assert_eq!(s.sent.len(), 2);
}

#[test]
fn two_daemons_exchange_a_punch() {
    let mut field = Station::new(5, 1, 0, false);
    let mut base = Station::new(1, 1, 0, false);
    field.buffer.record(111, 31, 100, "local").unwrap();
    field.tick(0);
    let (_, payload) = field.sent.pop().unwrap();
    base.receive(5, &payload);
    let rows = base.buffer.unsent();
    assert_eq!(rows.len(), 1);
    assert_eq!((rows[0].card_id, rows[0].station, rows[0].time_s), (111, 31, 100));
    assert_eq!(rows[0].source, "5");
    let (dest, ack) = base.sent.pop().unwrap();
    assert_eq!(dest, 5);
    field.receive(1, &ack);
    assert!(field.buffer.unsent().is_empty());
}

#[test]
fn relay_passes_on_what_is_for_others() {
    let mut relay = Station::new(2, 1, 0, true);
    let punch = card(222, 200).to_addressed_payload(10, 1);
    relay.receive(10, &punch);
    assert!(relay.sent.contains(&(1, punch.clone())));
    assert!(relay.buffer.unsent().is_empty());

    let mut plain = Station::new(2, 1, 0, false);
    plain.receive(10, &punch);
    assert!(plain.sent.is_empty());
}

#[test]
fn command_is_repeated_then_given_up() {
    let mut s = Station::new(1, 5, 0, false);
    s.command("CMD 5 30", 0);
    assert_eq!(s.sent[0], (5, "CMD 5 1 hb_interval=30".to_string()));
    let mut now = 0;
    for _ in 0..10 {
        now += CMD_RETRY_INTERVAL_MS;
        s.tick(now);
    }
    assert_eq!(s.sent.len(), CMD_MAX_ATTEMPTS as usize);
    assert!(s.logged("CMDERR 5 hb_interval=30"));
}

#[test]
fn confirmed_command_is_not_repeated() {
    let mut s = Station::new(1, 5, 0, false);
    s.command("CMD 5 30", 0);
    let ack =
        Frame::Ack { origin: 5, commander: 1, setting: Setting::HeartbeatIntervalSecs(30) };
    s.receive(5, &ack.encode());
    assert!(s.logged("CMDOK 5 hb_interval=30"));
    s.tick(CMD_RETRY_INTERVAL_MS);
    assert_eq!(s.sent.len(), 1);
}

#[test]
fn daemon_obeys_a_heartbeat_command() {
    let mut s = Station::new(5, 1, 60, false);
    let cmd = Frame::Command {
        target: 5,
        commander: 1,
        setting: Setting::HeartbeatIntervalSecs(0),
    };
    s.receive(1, &cmd.encode());
    assert_eq!(s.daemon.heartbeat_secs, None);
    assert_eq!(s.sent, vec![(1, "ACK 5 1 hb_interval=0".to_string())]);
    assert!(s.logged("CMDAPPLIED 1 hb_interval=0"));
}

#[test]
fn commands_of_clients() {
    let mut s = Station::new(1, 5, 0, false);
    s.command("SET_DEST 9", 0);
    assert_eq!(s.daemon.dest, 9);
    s.command("SEND hello there", 0);
    s.command("SENDBIN 6869", 0);
    s.command("SETCFG 10 sf=11", 0);
    s.command("QUERYVERSION 10", 0);
    let texts: Vec<&str> = s.sent.iter().map(|(_, t)| t.as_str()).collect();
    assert_eq!(texts[0], "hello there");
    assert_eq!(texts[1], "hi");
    assert!(texts.contains(&"CMD 10 1 sf=11"));
    assert!(texts.contains(&"VQUERY 10"));
    s.command("TESTPUNCH 555 9 1234", 0);
    assert_eq!(s.buffer.unsent()[0].source, "test");
    assert!(s.logged("TESTPUNCHOK 555 9 1234") || s.logged("555"));
    s.command("CLEARPUNCH 99", 0);
    assert!(s.logged("CLEARPUNCH: no unsent local punch 99"));
    s.command("NONSENSE", 0);
}

#[test]
fn heard_heartbeats_and_versions_are_noted() {
    let mut s = Station::new(1, 5, 0, false);
    s.receive(10, "HB 82 3950 1");
    assert_eq!(s.state.nodes[&10].battery_pct, Some(82));
    assert_eq!(s.state.nodes[&10].si_present, Some(true));
    s.receive(10, "VERSION 10 0.1.0+abc");
    assert_eq!(s.state.nodes[&10].version.as_deref(), Some("0.1.0+abc"));
    assert_eq!(s.sent, vec![(10, "CACK 10".to_string())]);
}

#[test]
fn bytes_that_are_no_text_are_shown_as_well_as_can_be() {
    let mut s = Station::new(1, 5, 0, false);
    let effects = s.daemon.received(10, None, &[b'a', 0xFF]);
    s.run(effects);
    assert!(s.logged("a\u{FFFD}"));
}

#[test]
fn failures_are_logged_with_their_purpose() {
    let mut s = Station::new(5, 1, 1, false);
    let hb = s.daemon.heartbeat(1_000).unwrap();
    assert_eq!(hb.outcome_line(Some("boom")), Some("ERR HB: boom".to_string()));
    s.buffer.record(1, 2, 3, "local").unwrap();
    match s.daemon.punch_step(0, &s.buffer.unsent_local()) {
        PunchStep::First(_, e) => {
            assert_eq!(e.outcome_line(Some("boom")), Some("ERR TX: boom".to_string()))
        }
        other => panic!("unexpected {:?}", other),
    }
    assert_eq!(s.daemon.receive_failed("boom"), "ERR RX: boom");
    let local = s.daemon.local_readout(&card(7, 9));
    assert!(
        matches!(&local[0], Effect::Record { card_id: 7, station: 1, time_s: 9, source } if source == "local")
    );
}

#[test]
fn packed_heartbeat_of_a_node_is_noted() {
    let mut base = Station::new(1, 2, 0, false);
    let bytes = encode_heartbeat(Some((82, 3950)), Some(true));
    let effects = base.daemon.received(10, Some(-70), &bytes);
    base.run(effects);
    assert_eq!(base.state.nodes[&10].battery_pct, Some(82));
    assert_eq!(base.state.nodes[&10].battery_mv, Some(3950));
    assert_eq!(base.state.nodes[&10].si_present, Some(true));
    assert_eq!(base.state.log[0].line, "HBRX 10 82 3950 1");

    let effects = base.daemon.received(11, None, &encode_heartbeat(None, Some(false)));
    base.run(effects);
    assert_eq!(base.state.nodes[&11].battery_pct, None);
    assert_eq!(base.state.nodes[&11].si_present, Some(false));
    assert!(parse_packed_heartbeat(&bytes[..4]).is_none());
    assert!(parse_packed_heartbeat(b"HB 82").is_none());
}

#[test]
fn packed_acknowledgement_ends_the_waiting_or_is_relayed() {
    let mut node = Station::new(10, 1, 0, true);
    let id = node.buffer.record(123456, 31, 100, "local").unwrap();
    if let PunchStep::First(batch, _) = node.daemon.punch_step(0, &node.buffer.unsent_local()) {
        node.daemon.punch_sent(batch, 0);
    }
    let other = encode_punch_ack(11, 123456);
    match &node.daemon.received(1, None, &other)[0] {
        Effect::Send { dest, bytes, .. } => assert_eq!((*dest, bytes), (11, &other)),
        e => panic!("not passed on: {:?}", e),
    }
    let effects = node.daemon.received(1, None, &encode_punch_ack(10, 123456));
    assert!(matches!(effects[0], Effect::MarkSent(n) if n == id));
    node.run(effects);
    assert!(node.buffer.unsent_local().is_empty());
    assert!(node.daemon.punch.is_none());
}
