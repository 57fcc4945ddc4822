//! Tests of the daemon's status lines, heartbeats, radios and client calls.

use lora_online::lora_server::args::Args;
use lora_online::lora_server::backend::{
    attach_seq, base_url, build_sx127x_config, from_hex, next_local_batch, parse_heartbeat,
    poll_batch, read_log_line, to_hex, ClientCall, ConfigError, Heartbeat, HttpLogLine, Polled,
};
use lora_online::lora_server::backend::{
    parse_rx_line, parse_status_line, NetworkFilteredRadio, Radio, StatusEvent,
};
use lora_online::lora_server::protocol::Setting;
use lora_online::lora_server::punch_buffer::PunchBuffer;
use lora_online::lora_server::radio::{encode_rx_line, heartbeat_command};
use lora_online::sportident::{CardReadout, ControlPunch};
use lora_online::sx127x::packet::payload_from;
use lora_online::sx127x::{Bandwidth, CodingRate, ReceivedPacket};

#[test]
fn test_next_local_batch_empty_buffer_is_none() {
    let buffer = PunchBuffer::new();
    assert!(next_local_batch(&buffer.unsent_local(), 5, 1).is_none());
}

#[test]
fn test_next_local_batch_groups_same_card_id_and_matches_wire_format() {
    let mut buffer = PunchBuffer::new();
    let id1 = buffer.record(123456, 31, 36070, "local").unwrap();
    let id2 = buffer.record(123456, 32, 36200, "local").unwrap();

    let batch = next_local_batch(&buffer.unsent_local(), 5, 1).unwrap();
    assert_eq!(batch.card_id, 123456);
    assert_eq!(batch.row_ids, vec![id1, id2]);

    let expected = CardReadout {
        card_id: 123456,
        punches: vec![
            ControlPunch { station: 31, time_s: 36070 },
            ControlPunch { station: 32, time_s: 36200 },
        ],
    }
    .to_addressed_payload(5, 1);
    assert_eq!(batch.payload, expected);
}

#[test]
fn test_next_local_batch_does_not_mix_different_card_ids() {
    let mut buffer = PunchBuffer::new();
    buffer.record(1, 1, 100, "local").unwrap();
    buffer.record(2, 2, 200, "local").unwrap();

    let batch = next_local_batch(&buffer.unsent_local(), 5, 1).unwrap();
    assert_eq!(batch.card_id, 1);
    assert_eq!(batch.row_ids.len(), 1);
}

#[test]
fn test_next_local_batch_ignores_remote_sourced_rows() {
    let mut buffer = PunchBuffer::new();
    buffer.record(1, 1, 100, "192.168.1.5").unwrap();
    let id = buffer.record(2, 2, 200, "local").unwrap();

    let batch = next_local_batch(&buffer.unsent_local(), 5, 1).unwrap();
    assert_eq!(batch.card_id, 2);
    assert_eq!(batch.row_ids, vec![id]);
}

#[test]
fn test_parse_status_line_cmdok() {
    let evt = parse_status_line("CMDOK 5 hb_interval=30").unwrap();
    match evt {
        StatusEvent::CmdOk { target, setting } => {
            assert_eq!(target, 5);
            assert_eq!(setting, Setting::HeartbeatIntervalSecs(30));
        }
        _ => panic!("expected CmdOk"),
    }
}

#[test]
fn test_parse_status_line_cmderr() {
    let evt = parse_status_line("CMDERR 7 hb_interval=45").unwrap();
    match evt {
        StatusEvent::CmdErr { target, setting } => {
            assert_eq!(target, 7);
            assert_eq!(setting, Setting::HeartbeatIntervalSecs(45));
        }
        _ => panic!("expected CmdErr"),
    }
}

#[test]
fn test_parse_status_line_still_handles_existing_events() {
    assert!(matches!(parse_status_line("HB 3").unwrap(), StatusEvent::Heartbeat { dest: 3 }));
    assert!(matches!(parse_status_line("ERR boom").unwrap(), StatusEvent::Error(m) if m == "boom"));
    assert!(parse_status_line("garbage").is_none());
}

#[test]
fn test_parse_status_line_hbrx_with_battery_and_si() {
    let evt = parse_status_line("HBRX 5 82 3950 1").unwrap();
    assert_eq!(
        evt,
        StatusEvent::HeartbeatRx { node: 5, battery: Some((82, 3950)), si_present: Some(true) }
    );
}

#[test]
fn test_parse_status_line_hbrx_no_battery_si_absent() {
    let evt = parse_status_line("HBRX 5 - 0").unwrap();
    assert_eq!(
        evt,
        StatusEvent::HeartbeatRx { node: 5, battery: None, si_present: Some(false) }
    );
}

#[test]
fn test_parse_status_line_hbrx_no_si_reported() {
    let evt = parse_status_line("HBRX 5 - -").unwrap();
    assert_eq!(evt, StatusEvent::HeartbeatRx { node: 5, battery: None, si_present: None });
}

#[test]
fn test_parse_status_line_packok() {
    let evt = parse_status_line("PACKOK 123456 5").unwrap();
    assert_eq!(evt, StatusEvent::PunchAckOk { card_id: 123456, acked_by: 5 });
}

#[test]
fn test_parse_status_line_cmdapplied() {
    let evt = parse_status_line("CMDAPPLIED 1 hb_interval=30").unwrap();
    assert_eq!(
        evt,
        StatusEvent::CmdApplied { commander: 1, setting: Setting::HeartbeatIntervalSecs(30) }
    );
}

#[test]
fn test_parse_status_line_punchrx() {
    let evt = parse_status_line("PUNCHRX 10 123456").unwrap();
    assert_eq!(evt, StatusEvent::PunchRx { origin: 10, card_id: 123456 });
}

#[test]
fn every_status_line_round_trips() {
    for e in [
        StatusEvent::Heartbeat { dest: 3 },
        StatusEvent::Tx { dest: 7, payload: "hello world".to_string() },
        StatusEvent::Error("TX: boom".to_string()),
        StatusEvent::CmdOk { target: 5, setting: Setting::Sf(11) },
        StatusEvent::CmdErr { target: 5, setting: Setting::TxPowerDbm(-1) },
        StatusEvent::HeartbeatRx { node: 5, battery: Some((1, 2)), si_present: None },
        StatusEvent::HeartbeatRx { node: 5, battery: None, si_present: Some(true) },
        StatusEvent::TestPunchOk { card_id: 1, station: 2, time_s: 3 },
        StatusEvent::ClearPunchOk { id: -4 },
        StatusEvent::ClearPunchesOk { count: 9 },
        StatusEvent::PunchAckOk { card_id: 8, acked_by: 1 },
        StatusEvent::CmdApplied { commander: 1, setting: Setting::Cr(5) },
        StatusEvent::PunchRx { origin: 10, card_id: 7 },
    ] {
        assert_eq!(parse_status_line(&e.encode()), Some(e));
    }
}

#[test]
fn test_http_radio_polls_new_log_lines_into_events_and_status() {
    let log = vec![
        HttpLogLine { seq: 3, line: "HBRX 5 77 3900 1".to_string() },
        HttpLogLine { seq: 2, line: "RX 5 -80 PUNCH 5 123456 31:100".to_string() },
        HttpLogLine { seq: 1, line: "HB 1".to_string() },
    ];
    assert_eq!(attach_seq(&log), 3);
    let (fresh, last) = poll_batch(log, 1);
    assert_eq!(last, 3);
    assert_eq!(fresh.len(), 2);
    match read_log_line(&fresh[0].line) {
        Some(Polled::Packet(pkt)) => {
            assert_eq!(pkt.src_addr, 5);
            assert_eq!(pkt.rssi, Some(-80));
            assert_eq!(pkt.payload.as_slice(), b"PUNCH 5 123456 31:100");
        }
        other => panic!("unexpected {:?}", other),
    }
    match read_log_line(&fresh[1].line) {
        Some(Polled::Event(StatusEvent::HeartbeatRx { node, battery, si_present })) => {
            assert_eq!(node, 5);
            assert_eq!(battery, Some((77, 3900)));
            assert_eq!(si_present, Some(true));
        }
        other => panic!("unexpected {:?}", other),
    }
    assert!(read_log_line("whatever").is_none());
}

#[test]
fn test_parse_heartbeat_bare() {
    assert_eq!(parse_heartbeat("HB"), Some(Heartbeat { battery: None, si_present: None }));
}

#[test]
fn test_parse_heartbeat_legacy_battery_only() {
    assert_eq!(
        parse_heartbeat("HB 82 3950"),
        Some(Heartbeat { battery: Some((82, 3950)), si_present: None })
    );
}

#[test]
fn test_parse_heartbeat_with_battery_and_si_present() {
    assert_eq!(
        parse_heartbeat("HB 82 3950 1"),
        Some(Heartbeat { battery: Some((82, 3950)), si_present: Some(true) })
    );
    assert_eq!(
        parse_heartbeat("HB 82 3950 0"),
        Some(Heartbeat { battery: Some((82, 3950)), si_present: Some(false) })
    );
}

#[test]
fn test_parse_heartbeat_no_battery_but_si_present() {
    assert_eq!(
        parse_heartbeat("HB - - 1"),
        Some(Heartbeat { battery: None, si_present: Some(true) })
    );
}

#[test]
fn test_parse_heartbeat_rejects_non_heartbeat() {
    assert_eq!(parse_heartbeat("PUNCH 5 123456 31:100"), None);
    assert_eq!(parse_heartbeat(""), None);
    assert_eq!(parse_heartbeat("HB notanumber 3950"), None);
    assert_eq!(parse_heartbeat("HB 82"), None);
    assert_eq!(parse_heartbeat("HB 82 3950 maybe"), None);
}

/// A radio that records what was sent and hands out queued packets.
struct FakeRadio {
    sent: Vec<(u16, Vec<u8>)>,
    to_receive: std::collections::VecDeque<ReceivedPacket>,
}

impl Radio for FakeRadio {
    fn send(&mut self, dest: u16, payload: &[u8]) -> Result<(), String> {
        self.sent.push((dest, payload.to_vec()));
        Ok(())
    }

    fn receive(&mut self) -> Result<Option<ReceivedPacket>, String> {
        Ok(self.to_receive.pop_front())
    }
}

fn fake() -> FakeRadio {
    FakeRadio { sent: Vec::new(), to_receive: Default::default() }
}

fn packet(src_addr: u16, payload: &str) -> ReceivedPacket {
    ReceivedPacket { src_addr, payload: payload_from(payload.as_bytes()), rssi: None }
}

#[test]
fn test_network_filtered_radio_prepends_network_id_on_send() {
    let mut radio = NetworkFilteredRadio::new(fake(), "LOC".to_string());
    radio.send(5, b"PUNCH 10 123456 31:100").unwrap();
    assert_eq!(radio.inner.sent, vec![(5, b"LOC PUNCH 10 123456 31:100".to_vec())]);
}

#[test]
fn test_network_filtered_radio_strips_matching_network_id_on_receive() {
    let mut inner = fake();
    inner.to_receive.push_back(packet(5, "LOC PUNCH 10 123456 31:100"));
    let mut radio = NetworkFilteredRadio::new(inner, "LOC".to_string());

    let pkt = radio.receive().unwrap().unwrap();
    assert_eq!(pkt.payload.as_slice(), b"PUNCH 10 123456 31:100");
    assert_eq!(pkt.src_addr, 5);
}

#[test]
fn test_network_filtered_radio_drops_mismatched_network_id() {
    let mut inner = fake();
    inner.to_receive.push_back(packet(5, "OTHERDEPLOY PUNCH 10 123456 31:100"));
    let mut radio = NetworkFilteredRadio::new(inner, "LOC".to_string());

    assert!(radio.receive().unwrap().is_none());
}

#[test]
fn test_network_filtered_radio_drops_payload_with_no_network_id_at_all() {
    let mut inner = fake();
    inner.to_receive.push_back(packet(5, "PUNCH 10 123456 31:100"));
    let mut radio = NetworkFilteredRadio::new(inner, "LOC".to_string());

    assert!(radio.receive().unwrap().is_none());
}

#[test]
fn bytes_that_are_no_text_belong_to_no_network() {
    let mut inner = fake();
    inner.to_receive.push_back(ReceivedPacket {
        src_addr: 5,
        payload: payload_from(b"LOC \xFF"),
        rssi: None,
    });
    let mut radio = NetworkFilteredRadio::new(inner, "LOC".to_string());
    assert!(radio.receive().unwrap().is_none());
}

#[test]
fn direct_radio_sends_commands_but_does_no_bookkeeping() {
    let mut radio = fake();
    radio.send_command(1, 5, 30).unwrap();
    assert_eq!(radio.sent, vec![(5, b"CMD 5 1 hb_interval=30".to_vec())]);
    assert_eq!(heartbeat_command(1, 5, 30), "CMD 5 1 hb_interval=30");
    assert!(radio.send_test_punch(1, 2, 3).unwrap_err().starts_with("test punch requires"));
    assert!(radio.clear_punch(1).unwrap_err().starts_with("clear punch requires"));
    assert!(radio.clear_all_punches().unwrap_err().starts_with("clear punches requires"));
    assert_eq!(radio.set_dest(9), Ok(()));
    assert!(radio.poll_status().is_empty());
}

#[test]
fn received_line_round_trips() {
    let line = encode_rx_line(5, Some(-80), "PUNCH 5 7 31:100");
    assert_eq!(line, "RX 5 -80 PUNCH 5 7 31:100");
    let pkt = parse_rx_line(&line).unwrap();
    assert_eq!((pkt.src_addr, pkt.rssi), (5, Some(-80)));
    assert_eq!(pkt.payload.as_slice(), b"PUNCH 5 7 31:100");
    assert_eq!(parse_rx_line(&encode_rx_line(5, None, "x")).unwrap().rssi, None);
    assert!(parse_rx_line("HB 3").is_none());
}

#[test]
fn hexadecimal_round_trips() {
    assert_eq!(to_hex(&[0x01, 0x02, 0xFF]), "0102ff");
    assert_eq!(from_hex("0102fF"), Some(vec![0x01, 0x02, 0xFF]));
    assert_eq!(from_hex(""), Some(vec![]));
    assert_eq!(from_hex("0"), None);
    assert_eq!(from_hex("zz"), None);
}

#[test]
fn client_calls_name_their_endpoints() {
    let calls = [
        (ClientCall::Send(vec![1, 2, 0xFF]), "/sendbin", "0102ff"),
        (ClientCall::SetDest(7), "/setdest", "dest=7"),
        (
            ClientCall::Command { target: 5, heartbeat_interval_secs: 30 },
            "/cmd",
            "target=5&heartbeat_interval_secs=30",
        ),
        (
            ClientCall::TestPunch { card_id: 1, station: 2, time_s: 3 },
            "/testpunch",
            "card_id=1&station=2&time_s=3",
        ),
        (ClientCall::ClearPunch(42), "/clearpunch", "id=42"),
        (ClientCall::ClearPunches, "/clearpunches", ""),
    ];
    for (call, path, body) in calls {
        assert_eq!(call.path(), path);
        assert_eq!(call.body(), body);
    }
    assert_eq!(base_url("http://host:8082//"), "http://host:8082");
}

fn args() -> Args {
    Args {
        reset_pin: 25,
        dio0_pin: None,
        sf: 7,
        bw_hz: 125_000,
        cr: 5,
        sync_word: 18,
        freq: 868,
        addr: 3,
        dest: 1,
        relay: false,
        power: 22,
        heartbeat_interval: 60,
        network_id: "LOC".to_string(),
        health_listen: String::new(),
        roc_health_url: None,
        health_check_interval_secs: 30,
        web_listen: String::new(),
        socket: String::new(),
        punch_db: String::new(),
        push_to: None,
        push_interval_secs: 10,
    }
}

#[test]
fn radio_configuration_of_the_daemon() {
    let c = build_sx127x_config(&args()).unwrap();
    assert_eq!(c.freq_hz, 868_000_000);
    assert_eq!(c.addr, 3);
    assert_eq!(c.bandwidth, Bandwidth::Khz125);
    assert_eq!(c.coding_rate, CodingRate::Cr4_5);

    let mut a = args();
    a.bw_hz = 100_000;
    let e = build_sx127x_config(&a).unwrap_err();
    assert_eq!(e, ConfigError::Bandwidth(100_000));
    assert!(e.message().starts_with("unsupported bandwidth 100000Hz"));
    let mut a = args();
    a.cr = 9;
    let e = build_sx127x_config(&a).unwrap_err();
    assert_eq!(e, ConfigError::CodingRate(9));
    assert_eq!(e.message(), "unsupported coding rate 4/9 — use 5, 6, 7, or 8");
    let mut a = args();
    a.sf = 13;
    let e = build_sx127x_config(&a).unwrap_err();
    assert_eq!(e, ConfigError::SpreadingFactor(13));
    assert_eq!(e.message(), "unsupported spreading factor 13 — use 7-12");
}
