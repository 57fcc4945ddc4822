//! Tests of the control frames.

use lora_online::lora_server::protocol::{
    encode_punch_ack, parse_punch_ack, Frame, Setting, TAG_PUNCH_ACK,
};

#[test]
fn test_command_round_trips() {
    let frame =
        Frame::Command { target: 5, commander: 1, setting: Setting::HeartbeatIntervalSecs(30) };
    let encoded = frame.encode();
    assert_eq!(encoded, "CMD 5 1 hb_interval=30");
    assert_eq!(Frame::parse(&encoded), Some(frame));
}

#[test]
fn test_ack_round_trips() {
    let frame = Frame::Ack { origin: 7, commander: 1, setting: Setting::HeartbeatIntervalSecs(45) };
    let encoded = frame.encode();
    assert_eq!(encoded, "ACK 7 1 hb_interval=45");
    assert_eq!(Frame::parse(&encoded), Some(frame));
}

#[test]
fn test_punch_ack_round_trips() {
    let encoded = encode_punch_ack(12, 123456);
    assert_eq!(encoded, vec![TAG_PUNCH_ACK, 0x00, 0x0C, 0x00, 0x01, 0xE2, 0x40]);
    assert_eq!(parse_punch_ack(&encoded), Some((12, 123456)));
}

#[test]
fn test_parse_punch_ack_rejects_wrong_tag_or_length() {
    let mut wrong_tag = encode_punch_ack(12, 123456);
    wrong_tag[0] = 0xFF;
    assert_eq!(parse_punch_ack(&wrong_tag), None);
    assert_eq!(parse_punch_ack(&encode_punch_ack(12, 123456)[..6]), None);
    assert_eq!(parse_punch_ack(&[]), None);
}

#[test]
fn test_parse_rejects_unrelated_text() {
    assert_eq!(Frame::parse("HB"), None);
    assert_eq!(Frame::parse("PUNCH 123 31:36070"), None);
    assert_eq!(Frame::parse(""), None);
}

#[test]
fn test_parse_rejects_malformed_command() {
    assert_eq!(Frame::parse("CMD notanumber 1 hb_interval=30"), None);
    assert_eq!(Frame::parse("CMD 5 notanumber hb_interval=30"), None);
    assert_eq!(Frame::parse("CMD 5 1 unknown_setting=30"), None);
    assert_eq!(Frame::parse("CMD 5 1 hb_interval=notanumber"), None);
    assert_eq!(Frame::parse("CMD 5"), None);
    assert_eq!(Frame::parse("CMD 5 1"), None);
}

#[test]
fn test_version_query_round_trips() {
    let frame = Frame::VersionQuery { target: 10 };
    let encoded = frame.encode();
    assert_eq!(encoded, "VQUERY 10");
    assert_eq!(Frame::parse(&encoded), Some(frame));
}

#[test]
fn test_version_report_round_trips() {
    let frame = Frame::VersionReport { origin: 10, version: "0.1.0+a1b2c3d4.dirty".to_string() };
    let encoded = frame.encode();
    assert_eq!(encoded, "VERSION 10 0.1.0+a1b2c3d4.dirty");
    assert_eq!(Frame::parse(&encoded), Some(frame));
}

#[test]
fn test_parse_rejects_malformed_version_query() {
    assert_eq!(Frame::parse("VQUERY notanumber"), None);
    assert_eq!(Frame::parse("VQUERY"), None);
}

#[test]
fn test_parse_rejects_malformed_version_report() {
    assert_eq!(Frame::parse("VERSION notanumber 0.1.0"), None);
    assert_eq!(Frame::parse("VERSION 10"), None);
    assert_eq!(Frame::parse("VERSION 10 "), None);
    assert_eq!(Frame::parse("VERSION"), None);
}

#[test]
fn test_config_ack_round_trips() {
    let frame = Frame::ConfigAck { target: 10 };
    let encoded = frame.encode();
    assert_eq!(encoded, "CACK 10");
    assert_eq!(Frame::parse(&encoded), Some(frame));
}

#[test]
fn test_parse_rejects_malformed_config_ack() {
    assert_eq!(Frame::parse("CACK notanumber"), None);
    assert_eq!(Frame::parse("CACK"), None);
}

#[test]
fn every_setting_round_trips() {
    for s in [
        Setting::HeartbeatIntervalSecs(0),
        Setting::TxPowerDbm(-3),
        Setting::SettingsMode(true),
        Setting::SettingsMode(false),
        Setting::Addr(12),
        Setting::Dest(65535),
        Setting::FreqHz(868_000_000),
        Setting::SyncWord(18),
        Setting::Sf(11),
        Setting::BwHz(125_000),
        Setting::Cr(8),
    ] {
        assert_eq!(Setting::parse(&s.encode()), Some(s));
    }
    assert_eq!(Setting::parse("addr=70000"), None);
    assert_eq!(Setting::parse("settings_mode=2"), None);
}
