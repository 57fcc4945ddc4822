//! Tests of the two terminals.

use lora_online::lora_cli;
use lora_online::lora_cli::args::{Args, Start};
use lora_online::lora_cli::sportident::SiReader;
use lora_online::lora_cli::backend::{
    build_config, send_line, set_dest_line, takes_line, ConfigError, Daemon,
};
use lora_online::lora_server::app::{App, LogEntry, MAX_LOG_ENTRIES};
use lora_online::lora_server::daemon::Effect;
use lora_online::lora_server::daemon_state::DaemonState;
use lora_online::lora_server::protocol::Setting;
use lora_online::lora_server::status::StatusEvent;
use lora_online::lora_server::ui::{
    format_entry, heartbeat_done, heartbeat_due, input_line, log_title, packet_received, press,
    readout_done, readout_payload, receive_failed, request_done, rssi_color, submit, take_event,
    timestamp, window, Key, Request, Tint,
};
use lora_online::lora_server::web::build_status;
use lora_online::sportident::reader::{SiAction, SiEvent};
use lora_online::sportident::{CardReadout, ControlPunch};
use lora_online::sx126x::config::{AirSpeed, TxPower};
use lora_online::sx127x::packet::payload_from;
use lora_online::sx127x::ReceivedPacket;

fn app() -> App {
    App::new("port".to_string(), 3, 1)
}

fn line(e: &LogEntry) -> String {
    format_entry(e).into_iter().map(|s| s.text).collect()
}

fn last(app: &App) -> String {
    line(app.log.back().unwrap())
}

fn t() -> String {
    "12:00:00".to_string()
}

#[test]
fn typed_lines_become_requests() {
    let mut a = app();
    assert!(matches!(submit(&mut a, "/dest 9".to_string(), t()), Request::SetDest(9)));
    assert!(matches!(submit(&mut a, "/dest x".to_string(), t()), Request::Nothing));
    assert_eq!(last(&a), "[12:00:00] ERR  invalid address: x");
    assert!(matches!(submit(&mut a, "/addr 12".to_string(), t()), Request::Nothing));
    assert_eq!(a.addr, 12);
    assert!(matches!(
        submit(&mut a, "/cmd 5 30".to_string(), t()),
        Request::SendCommand { target: 5, secs: 30 }
    ));
    assert!(matches!(submit(&mut a, "/cmd 5".to_string(), t()), Request::Nothing));
    assert_eq!(last(&a), "[12:00:00] ERR  usage: /cmd <target-addr> <heartbeat-secs>");
    match submit(&mut a, "hello".to_string(), t()) {
        Request::Send { payload, .. } => assert_eq!(payload, "hello"),
        other => panic!("unexpected {:?}", other),
    }
}

#[test]
fn keys_edit_the_line() {
    let mut a = app();
    for c in "hiq".chars() {
        assert!(press(&mut a, Key::Char(c)).is_none());
    }
    assert!(a.should_quit);
    assert_eq!(input_line(&a), "> hi_");
    press(&mut a, Key::Backspace);
    assert_eq!(press(&mut a, Key::Enter), Some("h".to_string()));
    assert_eq!(press(&mut a, Key::Enter), None);
    press(&mut a, Key::Up);
    assert_eq!(a.scroll_offset, 1);
    press(&mut a, Key::Down);
    press(&mut a, Key::Down);
    assert_eq!(a.scroll_offset, 0);
    let mut b = app();
    press(&mut b, Key::Esc);
    assert!(b.should_quit);
}

#[test]
fn entries_are_written_as_lines() {
    let rx = LogEntry::Rx {
        timestamp: t(),
        src_addr: 5,
        payload: "hello".to_string(),
        rssi: Some(-95),
    };
    assert_eq!(line(&rx), "[12:00:00] RX from     5  hello   RSSI: -95dBm");
    let tx = LogEntry::Tx { timestamp: t(), dest_addr: 1, payload: "x".to_string() };
    assert_eq!(line(&tx), "[12:00:00] TX to       1  x");
    let hb = LogEntry::Heartbeat { timestamp: t(), dest_addr: 65535 };
    assert_eq!(line(&hb), "[12:00:00] HB to   65535");
    let cli = lora_cli::app::LogEntry::Error { timestamp: t(), message: "boom".to_string() };
    let spans: String = lora_cli::ui::format_entry(&cli).into_iter().map(|s| s.text).collect();
    assert_eq!(spans, "[12:00:00] ERR  boom");
}

#[test]
fn signal_strength_has_a_colour() {
    assert_eq!(rssi_color(-89), Tint::Green);
    assert_eq!(rssi_color(-90), Tint::Yellow);
    assert_eq!(rssi_color(-110), Tint::Yellow);
    assert_eq!(rssi_color(-111), Tint::Red);
}

#[test]
fn log_is_bounded_and_scrolled_view_stays() {
    let mut a = app();
    for i in 0..MAX_LOG_ENTRIES + 2 {
        a.push_log(LogEntry::Info { timestamp: t(), message: format!("{i}") });
    }
    assert_eq!(a.log.len(), MAX_LOG_ENTRIES);
    let mut a = app();
    a.push_log(LogEntry::Info { timestamp: t(), message: "1".to_string() });
    a.scroll_up();
    a.push_log(LogEntry::Info { timestamp: t(), message: "2".to_string() });
    assert_eq!(a.scroll_offset, 2);
    let w = window(10, 4, 3);
    assert_eq!((w.start, w.end, w.scroll), (3, 7, 3));
    let w = window(10, 4, 100);
    assert_eq!((w.start, w.end, w.scroll), (0, 4, 6));
    let w = window(2, 4, 1);
    assert_eq!((w.start, w.end, w.scroll), (0, 2, 0));
    assert_eq!(log_title(3), " Traffic [+3↓ to follow] ");
}

#[test]
fn times_and_heartbeats() {
    assert_eq!(timestamp(86_400 + 3_661), "01:01:01");
    assert!(!heartbeat_due(0, 100_000, 0));
    assert!(!heartbeat_due(60, 59_999, 0));
    assert!(heartbeat_due(60, 60_000, 0));
    let mut a = app();
    heartbeat_done(&mut a, None, t());
    assert_eq!(last(&a), "[12:00:00] HB to       1");
    heartbeat_done(&mut a, Some("busy".to_string()), t());
    assert!(last(&a).contains("busy"));
}

#[test]
fn received_packets_and_readouts_are_logged() {
    let mut a = app();
    let pkt = ReceivedPacket { src_addr: 5, rssi: None, payload: payload_from(b"a\xFF") };
    packet_received(&mut a, &pkt, t());
    assert_eq!(last(&a), "[12:00:00] RX from     5  a\u{FFFD}");
    receive_failed(&mut a, "bus".to_string(), t());
    assert!(last(&a).contains("bus"));
    let card = CardReadout { card_id: 7, punches: vec![ControlPunch { station: 31, time_s: 60 }] };
    assert_eq!(readout_payload(&a, &card), "PUNCH 3 1 7 31:60");
    readout_done(&mut a, &card, Some("busy".to_string()), t());
    assert!(last(&a).starts_with("[12:00:00] SI  card       7  "));
    assert_eq!(line(&a.log[a.log.len() - 2]), "[12:00:00] ERR  SI TX failed: busy");
    request_done(&mut a, Request::Send { dest: 1, payload: "x".to_string() }, None, t());
    assert_eq!(last(&a), "[12:00:00] TX to       1  x");
}

#[test]
fn failed_readout_moves_a_scrolled_view_twice() {
    let card = CardReadout { card_id: 7, punches: vec![] };
    let mut a = app();
    receive_failed(&mut a, "bus".to_string(), t());
    readout_done(&mut a, &card, Some("busy".to_string()), t());
    assert_eq!(a.scroll_offset, 0);
    a.scroll_offset = 1;
    readout_done(&mut a, &card, Some("busy".to_string()), t());
    assert_eq!(a.scroll_offset, 3);
    readout_done(&mut a, &card, None, t());
    assert_eq!(a.scroll_offset, 4);
}

#[test]
fn events_of_the_daemon_are_taken() {
    let mut a = app();
    let setting = Setting::HeartbeatIntervalSecs(30);
    take_event(&mut a, StatusEvent::CmdOk { target: 5, setting }, t());
    assert_eq!(last(&a), "[12:00:00] CMD      5  acked: hb_interval=30");
    take_event(&mut a, StatusEvent::CmdErr { target: 5, setting }, t());
    assert_eq!(last(&a), "[12:00:00] CMD      5  no ack: hb_interval=30");
    let n = a.log.len();
    take_event(
        &mut a,
        StatusEvent::HeartbeatRx { node: 9, battery: Some((80, 3900)), si_present: Some(true) },
        t(),
    );
    take_event(&mut a, StatusEvent::PunchRx { origin: 9, card_id: 7 }, t());
    assert_eq!(a.log.len(), n);
    assert_eq!(a.nodes[&9].battery_pct, Some(80));
    assert_eq!(a.nodes[&9].punch_count, 1);
    assert_eq!(a.config_line(), "port  addr: 3  dest: 1");
}

fn args() -> Args {
    Args {
        port: Some("/dev/ttyUSB0".to_string()),
        radio: "uart".to_string(),
        reset_pin: 25,
        sf: 7,
        bw_hz: 125_000,
        cr: 5,
        sync_word: 18,
        freq: 868,
        addr: 3,
        dest: 1,
        power: 22,
        air_speed: 2400,
        m0_pin: None,
        m1_pin: None,
        heartbeat_interval: 60,
        socket: String::new(),
        attach: false,
    }
}

#[test]
fn terminal_starts_as_asked() {
    assert_eq!(args().start(), Start::Uart);
    assert_eq!(Args { port: None, ..args() }.start(), Start::PortMissing);
    assert_eq!(Args { radio: "spi".to_string(), port: None, ..args() }.start(), Start::Spi);
    assert_eq!(Args { attach: true, port: None, ..args() }.start(), Start::Attach);
}

#[test]
fn serial_module_is_configured_from_the_settings() {
    let c = build_config(&args()).unwrap();
    assert_eq!((c.freq_mhz, c.addr, c.power, c.air_speed), (868, 3, TxPower::Dbm22, AirSpeed::Bps2400));
    let e = build_config(&Args { power: 11, ..args() }).unwrap_err();
    assert_eq!(e, ConfigError::Power(11));
    assert!(e.message().contains("11"));
    assert!(build_config(&Args { air_speed: 100, ..args() }).is_err());
}

#[test]
fn terminal_daemon_obeys_its_clients() {
    let mut d = Daemon::new(1, 2, 0);
    assert!(takes_line("SEND x") && takes_line("SET_DEST 9") && !takes_line("QUIT"));
    match d.command(&send_line(b"hello")) {
        Some(Effect::Send { dest: 1, shown, .. }) => assert_eq!(shown, "hello"),
        other => panic!("unexpected {:?}", other),
    }
    assert!(d.command(&set_dest_line(9)).is_none());
    assert_eq!(d.dest, 9);
    assert!(d.heartbeat(1_999).is_none());
    assert!(matches!(d.heartbeat(2_000), Some(Effect::Send { dest: 9, .. })));
    assert_eq!(d.received(5, Some(-80), b"hi"), "RX 5 -80 hi");
    assert_eq!(d.receive_failed("bus"), "ERR RX: bus");
}

/// What the terminal's reader makes of a live punch.
fn live_punch(control: u16, data: &[u8], now_s: u32) -> Option<CardReadout> {
    let mut body = vec![0xD3, (data.len() + 2) as u8, (control >> 8) as u8, control as u8];
    body.extend_from_slice(data);
    let mut reader = SiReader::new();
    reader.feed(&[0x02]);
    reader.feed(&body);
    reader.feed(&[0x00, 0x00, 0x03]);
    match reader.read_event(now_s) {
        SiAction::Event(SiEvent::CardReadout(r)) => Some(r),
        _ => None,
    }
}

/// The time that the terminal's reader gives a punch at `raw` seconds.
fn resolved(raw: u32, now_s: u32) -> u32 {
    let data = [0x01, 0x0F, 0x42, 0x40, 0x00, (raw >> 8) as u8, raw as u8];
    live_punch(33, &data, now_s).unwrap().punches[0].time_s
}

#[test]
fn test_resolve_autosend_time_am_stays_am() {
    let raw = 8 * 3600;
    let now = 8 * 3600 + 5;
    assert_eq!(resolved(raw, now), raw);
}

#[test]
fn test_resolve_autosend_time_pm_gets_12h_added() {
    let raw = 3 * 3600;
    let now = 15 * 3600 + 5;
    assert_eq!(resolved(raw, now), raw + 43_200);
}

#[test]
fn test_resolve_autosend_time_noon_boundary_with_safety_margin() {
    let raw = 11 * 3600 + 59 * 60 + 58;
    let now = 12 * 3600 + 2;
    assert_eq!(resolved(raw, now), raw);
}

#[test]
fn test_parse_punch_decodes_card_and_control() {
    let data = [0x01, 0x0F, 0x42, 0x40, 0x00, 0x70, 0x80];
    let now_s = 8 * 3600 + 5;
    let readout = live_punch(33, &data, now_s).unwrap();

    assert_eq!(readout.card_id, 0x0F4240);
    assert_eq!(readout.punches.len(), 1);
    assert_eq!(readout.punches[0].station, 33);
    assert_eq!(readout.punches[0].time_s, 8 * 3600);
}

#[test]
fn test_parse_punch_rejects_short_data() {
    assert!(live_punch(1, &[0x01, 0x00, 0x00], 0).is_none());
}

#[test]
fn a_moment_ago_is_no_second_ago() {
    let mut state = DaemonState::default();
    state.push_log("now".to_string());
    let now = std::time::SystemTime::now().duration_since(std::time::UNIX_EPOCH).unwrap();
    let page = build_status(1, "v", &state, true, None, "", now.as_nanos() as u64);
    assert!(page.log[0].secs_ago <= 1);
    assert!(state.log[0].at > 0);
}
