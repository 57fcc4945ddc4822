//! Tests of the node: its frames, settings, log and decisions.

use lora_online::esp32_node::battery::battery_reading;
use lora_online::esp32_node::config::{
    default_config, NodeConfig, Stored, STANDARD_BW_HZ, STANDARD_CR, STANDARD_FREQ_HZ, STANDARD_SF,
    STANDARD_SYNC_WORD,
};
use lora_online::esp32_node::cp210x::Staging;
use lora_online::esp32_node::dio0_interrupt::wait_ms;
use lora_online::esp32_node::node::{
    boot_line, debug_lines, encode_heartbeat, stage_setting, Effect, Node, Purpose,
};
use lora_online::esp32_node::persistent_log::{
    append, read_lines, MAX_ENTRIES, MAX_LINE_LEN,
};
use lora_online::esp32_node::protocol::{
    encode_punch_ack, encode_version_report, packet_text, parse_config_ack, parse_punch_ack,
    parse_version_query, receive_text,
};
use lora_online::esp32_node::psram::PsramAllocator;
use lora_online::esp32_node::wifi_config::{render_log_page, render_page, save_form, ssid};
use lora_online::lora_server::protocol::{Frame, Setting};
use lora_online::sportident::crc::crc16;
use lora_online::sportident::{CardReadout, ControlPunch};
use lora_online::sx127x::packet::payload_from;
use lora_online::sx127x::{Bandwidth, CodingRate, Config, LoraRadio, ReceivedPacket};

#[test]
fn test_parse_punch_ack() {
    assert_eq!(parse_punch_ack("PACK 12 123456"), Some((12, 123456)));
}

#[test]
fn test_parse_punch_ack_rejects_garbage() {
    assert_eq!(parse_punch_ack("PACK notanumber 123"), None);
    assert_eq!(parse_punch_ack("HB"), None);
    assert_eq!(parse_punch_ack("PACK 12"), None);
}

#[test]
fn test_parse_version_query() {
    assert_eq!(parse_version_query("VQUERY 10"), Some(10));
}

#[test]
fn test_parse_version_query_rejects_garbage() {
    assert_eq!(parse_version_query("VQUERY notanumber"), None);
    assert_eq!(parse_version_query("HB"), None);
}

#[test]
fn test_encode_version_report() {
    assert_eq!(encode_version_report(10, "0.1.0+a1b2c3d4"), "VERSION 10 0.1.0+a1b2c3d4");
}

#[test]
fn test_parse_config_ack() {
    assert_eq!(parse_config_ack("CACK 10"), Some(10));
}

#[test]
fn test_parse_config_ack_rejects_garbage() {
    assert_eq!(parse_config_ack("CACK notanumber"), None);
    assert_eq!(parse_config_ack("HB"), None);
}

#[test]
fn written_acknowledgement_is_read_back() {
    assert_eq!(encode_punch_ack(12, 123456), "PACK 12 123456");
    assert_eq!(parse_punch_ack(&encode_punch_ack(65535, u32::MAX)), Some((65535, u32::MAX)));
}

struct Queue(Vec<Result<Option<ReceivedPacket>, u8>>);

impl LoraRadio for Queue {
    type Error = u8;

    fn configure(&mut self, _config: &Config) -> Result<(), u8> {
        Ok(())
    }

    fn send(&mut self, _dest: u16, _payload: &[u8]) -> Result<(), u8> {
        Ok(())
    }

    fn receive(&mut self) -> Result<Option<ReceivedPacket>, u8> {
        self.0.remove(0)
    }
}

fn received(bytes: &[u8]) -> ReceivedPacket {
    ReceivedPacket { src_addr: 1, rssi: Some(-80), payload: payload_from(bytes) }
}

#[test]
fn only_texts_are_received_as_texts() {
    let mut radio =
        Queue(vec![Ok(Some(received(b"CACK 10"))), Ok(Some(received(&[0xFF]))), Ok(None), Err(7)]);
    assert_eq!(receive_text(&mut radio), Ok(Some((1, Some(-80), "CACK 10".to_string()))));
    assert_eq!(receive_text(&mut radio), Ok(None));
    assert_eq!(receive_text(&mut radio), Ok(None));
    assert_eq!(receive_text(&mut radio), Err(7));
    assert_eq!(packet_text(&received("ü".as_bytes())).unwrap().2, "ü");
}

#[test]
fn test_ring_eviction_keeps_only_max_entries() {
    let mut blob: Option<String> = None;
    for i in 0..MAX_ENTRIES + 5 {
        blob = Some(append(blob.as_deref(), &format!("line {i}")));
    }
    let lines = read_lines(blob.as_deref());
    assert_eq!(lines.len(), MAX_ENTRIES);
    assert_eq!(lines.first().unwrap(), "line 5");
    assert_eq!(lines.last().unwrap(), &format!("line {}", MAX_ENTRIES + 4));
}

#[test]
fn test_line_truncation() {
    let line = "x".repeat(200);
    let lines = read_lines(Some(&append(None, &line)));
    assert_eq!(lines[0].len(), MAX_LINE_LEN);
}

#[test]
fn log_reads_nothing_and_odd_line_ends() {
    assert!(read_lines(None).is_empty());
    assert!(read_lines(Some("")).is_empty());
    assert_eq!(read_lines(Some("a\r\nb\n\nc\r")), vec!["a", "b", "", "c\r"]);
    assert_eq!(append(Some("a\nb\n"), "c"), "a\nb\nc");
}

#[test]
fn line_is_not_cut_inside_a_character() {
    let inside = format!("{}ü", "x".repeat(79));
    let before = format!("{}ü", "x".repeat(80));
    assert_eq!(append(None, &inside), "x".repeat(79));
    assert_eq!(append(None, &before), "x".repeat(80));
    assert_eq!(append(Some("a"), &"€".repeat(40)), format!("a\n{}", "€".repeat(26)));
    assert_eq!(append(Some("a"), "short ü"), "a\nshort ü");
}

#[test]
fn battery_charge() {
    assert_eq!(battery_reading(0), (0, 0));
    assert_eq!(battery_reading(1500), (0, 3000));
    assert_eq!(battery_reading(1800), (50, 3600));
    assert_eq!(battery_reading(2100), (100, 4200));
    assert_eq!(battery_reading(65535), (100, 65535));
}

#[test]
fn heartbeat_bytes() {
    assert_eq!(encode_heartbeat(None, None), [0x03, 0b000, 0, 0, 0]);
    assert_eq!(encode_heartbeat(Some((85, 3980)), Some(true)), [0x03, 0b111, 85, 0x0F, 0x8C]);
    assert_eq!(encode_heartbeat(None, Some(false)), [0x03, 0b010, 0, 0, 0]);
    assert_eq!(encode_heartbeat(Some((1, 2)), None), [0x03, 0b001, 1, 0, 2]);
}

fn nothing_stored() -> Stored {
    Stored {
        addr: None,
        dest: None,
        freq_hz: None,
        sync_word: None,
        sf: None,
        bw_hz: None,
        cr: None,
    }
}

fn odd_config() -> NodeConfig {
    NodeConfig {
        addr: 12,
        dest: 3,
        freq_hz: 869_000_000,
        sync_word: 0x34,
        sf: 11,
        bw_hz: 250_000,
        cr: 8,
    }
}

#[test]
fn settings_survive_a_reboot() {
    assert_eq!(NodeConfig::load(&nothing_stored(), default_config()), default_config());
    assert_eq!(NodeConfig::load(&odd_config().save(), default_config()), odd_config());
    let partly = Stored { dest: Some(9), ..nothing_stored() };
    assert_eq!(NodeConfig::load(&partly, odd_config()), NodeConfig { dest: 9, ..odd_config() });
}

#[test]
fn standard_mode_keeps_the_addresses() {
    assert_eq!(
        odd_config().standard_rf(),
        NodeConfig {
            addr: 12,
            dest: 3,
            freq_hz: STANDARD_FREQ_HZ,
            sync_word: STANDARD_SYNC_WORD,
            sf: STANDARD_SF,
            bw_hz: STANDARD_BW_HZ,
            cr: STANDARD_CR,
        }
    );
    assert_eq!(default_config().standard_rf(), default_config());
}

#[test]
fn radio_configuration_follows_the_settings() {
    let c = odd_config().radio_config(20);
    assert_eq!(c.freq_hz, 869_000_000);
    assert_eq!(c.bandwidth, Bandwidth::Khz250);
    assert_eq!(c.coding_rate, CodingRate::Cr4_8);
    assert_eq!(c.tx_power_dbm, 20);
    assert!(c.crc_on);
    let odd = NodeConfig { bw_hz: 1, cr: 1, ..odd_config() }.radio_config(2);
    assert_eq!(odd.bandwidth, Bandwidth::Khz125);
    assert_eq!(odd.coding_rate, CodingRate::Cr4_5);
}

fn sent(e: &Effect) -> (u16, String) {
    match e {
        Effect::Send { dest, bytes, .. } => {
            (*dest, String::from_utf8_lossy(bytes).into_owned())
        }
        other => panic!("unexpected {:?}", other),
    }
}

fn command(setting: Setting) -> String {
    Frame::Command { target: 10, commander: 1, setting }.encode()
}

#[test]
fn command_for_the_node_is_applied_and_confirmed() {
    let mut node = Node::new(default_config(), 0);
    let out = node.received(5, command(Setting::HeartbeatIntervalSecs(30)).as_bytes(), "v");
    assert_eq!(out.len(), 1);
    assert_eq!(sent(&out[0]), (5, "ACK 10 1 hb_interval=30".to_string()));
    assert_eq!(node.heartbeat_secs, 30);

    let out = node.received(5, command(Setting::TxPowerDbm(10)).as_bytes(), "v");
    assert!(matches!(&out[0], Effect::Configure(c) if c.tx_power_dbm == 10));
    assert_eq!(sent(&out[1]).1, "ACK 10 1 tx_power_dbm=10");
}

#[test]
fn command_for_another_node_is_ignored() {
    let mut node = Node::new(default_config(), 0);
    let cmd = Frame::Command {
        target: 11,
        commander: 1,
        setting: Setting::HeartbeatIntervalSecs(30),
    };
    assert!(node.received(5, cmd.encode().as_bytes(), "v").is_empty());
    assert_eq!(node.heartbeat_secs, 60);
}

#[test]
fn settings_are_staged_saved_and_followed_by_a_restart() {
    let mut node = Node::new(default_config(), 0);
    assert!(node.received(5, command(Setting::Sf(9)).as_bytes(), "v").is_empty());
    assert!(node.received(5, command(Setting::SettingsMode(false)).as_bytes(), "v").is_empty());

    let out = node.received(5, command(Setting::SettingsMode(true)).as_bytes(), "v");
    assert!(matches!(&out[0], Effect::Checkpoint(l) if l == "entered settings mode"));
    assert_eq!(sent(&out[1]).1, "ACK 10 1 settings_mode=1");

    assert_eq!(node.received(5, command(Setting::Sf(9)).as_bytes(), "v").len(), 1);
    assert!(node.received(5, command(Setting::Sf(6)).as_bytes(), "v").is_empty());
    assert!(node.received(5, command(Setting::BwHz(100_000)).as_bytes(), "v").is_empty());
    assert!(node.received(5, command(Setting::Cr(9)).as_bytes(), "v").is_empty());
    assert_eq!(node.config, default_config());

    let out = node.received(5, command(Setting::SettingsMode(false)).as_bytes(), "v");
    assert!(matches!(&out[0], Effect::Save(s) if s.sf == Some(9) && s.addr == Some(10)));
    assert_eq!(sent(&out[1]).1, "ACK 10 1 settings_mode=0");
    assert!(
        matches!(&out[2], Effect::Checkpoint(l) if l == "settings mode: config saved, rebooting")
    );
    assert!(matches!(&out[3], Effect::Restart));
}

#[test]
fn every_staged_setting_lands_in_its_field() {
    let mut s = Some(default_config());
    for setting in [
        Setting::Addr(12),
        Setting::Dest(3),
        Setting::FreqHz(869_000_000),
        Setting::SyncWord(0x34),
        Setting::Sf(11),
        Setting::BwHz(250_000),
        Setting::Cr(8),
    ] {
        assert!(stage_setting(&mut s, setting));
    }
    assert_eq!(s, Some(odd_config()));
    assert!(!stage_setting(&mut s, Setting::HeartbeatIntervalSecs(1)));
    assert!(!stage_setting(&mut None, Setting::Addr(1)));
}

#[test]
fn version_query_is_answered() {
    let mut node = Node::new(default_config(), 0);
    let out = node.received(5, b"VQUERY 10", "0.1.0+abc");
    assert_eq!(sent(&out[0]), (5, "VERSION 10 0.1.0+abc".to_string()));
    assert!(node.received(5, b"VQUERY 11", "0.1.0+abc").is_empty());
    assert!(node.received(5, &[0xFF, 0xFE], "0.1.0+abc").is_empty());
    assert!(node.received(5, b"hello", "0.1.0+abc").is_empty());
}

#[test]
fn confirmed_mode_is_kept() {
    let mut node = Node::new(odd_config(), 1_000);
    let out = node.verify_step("v", 11_000);
    assert_eq!(sent(&out[0]), (3, "VERSION 12 v".to_string()));
    assert!(node.verify_step("v", 12_000).is_empty());
    let out = node.received(3, b"CACK 12", "v");
    assert!(matches!(&out[0], Effect::Checkpoint(l) if l == "config verified"));
    assert!(node.verify_step("v", 60_000).is_empty());
    assert_eq!(node.config, odd_config());
}

#[test]
fn unconfirmed_mode_gives_way_to_the_standard_one() {
    let mut node = Node::new(odd_config(), 1_000);
    let out = node.verify_step("v", 31_000);
    assert!(matches!(
        &out[0],
        Effect::Checkpoint(l) if l == "config unverified: reverted to standard (this boot only)"
    ));
    assert!(matches!(&out[1], Effect::Configure(c) if c.freq_hz == STANDARD_FREQ_HZ));
    assert_eq!(node.config, odd_config().standard_rf());
    assert!(node.verify_step("v", 90_000).is_empty());
}

#[test]
fn heartbeats_are_sent_in_time() {
    let mut node = Node::new(default_config(), 5_000);
    let first = node.heartbeat(Some((85, 3980)), true, 5_000).unwrap();
    assert!(matches!(
        first,
        Effect::Send { dest: 1, ref bytes, purpose: Purpose::Heartbeat(1) }
            if bytes == &[0x03, 0b111, 85, 0x0F, 0x8C]
    ));
    assert!(node.heartbeat(None, true, 64_999).is_none());
    assert!(matches!(
        node.heartbeat(None, false, 65_000),
        Some(Effect::Send { purpose: Purpose::Heartbeat(2), .. })
    ));
}

#[test]
fn punches_are_sent_one_by_one_until_acknowledged() {
    let mut node = Node::new(default_config(), 0);
    let card = |id| CardReadout {
        card_id: id,
        punches: vec![ControlPunch { station: 31, time_s: 5 }],
    };
    node.card_read(card(7));
    node.card_read(card(8));
    let e = node.punch_step(0).unwrap();
    assert_eq!(sent(&e), (1, "PUNCH 10 1 7 31:5".to_string()));
    node.punch_sent(0);
    assert!(node.punch_step(4_999).is_none());
    let e = node.punch_step(5_000).unwrap();
    assert!(matches!(e, Effect::Send { purpose: Purpose::PunchAgain, .. }));
    assert_eq!(sent(&e).1, "PUNCH 10 1 7 31:5");

    assert!(node.received(1, b"PACK 10 8", "v").is_empty());
    assert!(node.punch.is_some());
    assert!(node.received(1, b"PACK 10 7", "v").is_empty());
    assert!(node.punch.is_none());
    assert_eq!(sent(&node.punch_step(6_000).unwrap()).1, "PUNCH 10 1 8 31:5");
    node.punch_sent(6_000);
    node.received(1, &[0x02, 0x00, 0x0A, 0x00, 0x00, 0x00, 0x08], "v");
    assert!(node.punch.is_none());
    assert!(node.punch_step(7_000).is_none());
}

#[test]
fn outcomes_of_sendings() {
    let node = Node::new(default_config(), 0);
    let ok = node.outcome(Purpose::Boot, None);
    assert!(matches!(&ok[..], [Effect::Checkpoint(l)] if l == "boot announce: ok"));
    let err = node.outcome(Purpose::Boot, Some("busy"));
    assert!(
        matches!(&err[..], [Effect::Checkpoint(l), Effect::Configure(_)] if l == "boot announce: err busy")
    );
    let ok = node.outcome(Purpose::Heartbeat(3), None);
    assert!(matches!(&ok[..], [Effect::Checkpoint(l)] if l == "hb #3: ok"));
    let err = node.outcome(Purpose::Heartbeat(3), Some("busy"));
    assert!(
        matches!(&err[..], [Effect::Checkpoint(l), Effect::Configure(_)] if l == "hb #3: err busy")
    );
    assert!(node.outcome(Purpose::Answer, None).is_empty());
    assert!(matches!(&node.outcome(Purpose::Punch, Some("x"))[..], [Effect::Configure(_)]));
    assert!(node.outcome(Purpose::LastAnswer, Some("x")).is_empty());
}

#[test]
fn boot_announcement_and_bench_lines() {
    let node = Node::new(default_config(), 0);
    assert_eq!(
        sent(&node.announce("0.1.0+abc", Purpose::Boot)),
        (1, "VERSION 10 0.1.0+abc".to_string())
    );
    assert_eq!(boot_line("PowerOn"), "boot: PowerOn");
    let lines = debug_lines(&["boot: PowerOn".to_string(), "radio up".to_string()]);
    assert_eq!(lines, vec!["DBGLOG 1/2 boot: PowerOn", "DBGLOG 2/2 radio up"]);
}

#[test]
fn form_changes_what_it_names() {
    let c = save_form(b"addr=12&dest=3&freq=869000000&sync_word=52", default_config());
    assert_eq!((c.addr, c.dest, c.freq_hz, c.sync_word), (12, 3, 869_000_000, 52));
    assert_eq!(c.sf, default_config().sf);
    assert_eq!(save_form(b"", odd_config()), odd_config());
    assert_eq!(save_form(b"addr=x&sync_word=256", odd_config()), odd_config());
    assert_eq!(save_form(&[0xFF], odd_config()), odd_config());
    assert_eq!(save_form(b"addr=1&addr=2", odd_config()).addr, 2);
}

#[test]
fn pages_show_settings_and_log() {
    assert_eq!(ssid(10), "esp32-node-10-config");
    let page = render_page(&default_config());
    assert!(page.starts_with("<html><body>\n<h1>ESP32 Node Config</h1>"));
    assert!(page.contains(r#"name="addr" value="10">"#));
    assert!(page.contains(r#"name="freq" value="868000000">"#));
    assert!(page.ends_with("</body></html>"));
    assert!(render_log_page(&[]).contains("<pre>(empty — nothing checkpointed yet)</pre>"));
    let log = render_log_page(&["a<b".to_string(), "c&d".to_string()]);
    assert!(log.contains("<pre>a&lt;b\nc&amp;d</pre>"));
}

#[test]
fn bridge_bytes_come_out_in_order() {
    let mut s = Staging::new();
    let mut buf = vec![0u8; 3];
    assert_eq!(s.read(&mut buf), 0);
    s.feed(&[1, 2]);
    s.feed(&[3, 4]);
    assert_eq!(s.read(&mut buf), 3);
    assert_eq!(buf, vec![1, 2, 3]);
    assert_eq!(s.read(&mut buf), 1);
    assert_eq!(buf, vec![4, 2, 3]);
}

#[test]
fn waits_and_allocations() {
    assert_eq!(wait_ms(0), 1);
    assert_eq!(wait_ms(1_000), 1);
    assert_eq!(wait_ms(1_001), 2);
    assert_eq!(PsramAllocator.bytes_for(0, 4), None);
    assert_eq!(PsramAllocator.bytes_for(0, 64), None);
    assert_eq!(PsramAllocator.bytes_for(12, 4), Some(12));
}

#[test]
fn test_crc16_two_bytes_is_just_the_seed() {
    assert_eq!(crc16(&[0xAB, 0xCD]), 0xABCD);
}
