//! Tests of the card images, the punch payloads and the station reader.

use lora_online::lora_cli::sportident as cli;
use lora_online::sportident::card::{
    card_id_3b, parse_backup_record, parse_card_data, parse_punch, parse_si5, resolve_autosend_time,
    seconds_of_day, CardSeries, CardType, PUNCH_TIME_OFFSET, SI1011_PUNCH_COUNT_OFFSET,
    SI1011_PUNCH_START_OFFSET, SI5_PUNCH_COUNT_OFFSET, SI5_PUNCH_START_OFFSET, SI5_REC_LEN,
    SI6_PUNCH_COUNT_OFFSET, SI6_PUNCH_START_OFFSET, SI9_PUNCH_COUNT_OFFSET,
    SI9_PUNCH_START_OFFSET,
};
use lora_online::sportident::crc::{build_command, crc16};
use lora_online::sportident::hotplug::{
    changes, device_event, find_si_port, parse_usb_id, si_ports, Change, HotplugEvent, Port,
    Reading, SiWorker,
};
use lora_online::sportident::reader::{
    crc_fault, is_si_device, sys_val, sys_val_request, Fault, ParsedPacket, SiAction, SiEvent, SiReader,
    StationConfig, O_PROTO,
};
use lora_online::sportident::{CardReadout, ControlPunch};

#[test]
fn card_number_is_read_from_three_bytes() {
    assert_eq!(card_id_3b(&[0x01, 0xE2, 0x40, 0xFF]), 123_456);
    assert_eq!(card_id_3b(&[0xFF, 0xFF, 0xFF]), 0x00FF_FFFF);
}

/// A packet as a station sends it.
fn packet(cmd: u8, station: u16, data: &[u8]) -> Vec<u8> {
    let mut body = vec![cmd, (data.len() + 2) as u8, (station >> 8) as u8, station as u8];
    body.extend_from_slice(data);
    let crc = crc16(&body);
    let mut out = vec![0x02];
    out.extend_from_slice(&body);
    out.extend_from_slice(&[(crc >> 8) as u8, crc as u8, 0x03]);
    out
}

#[test]
fn sportident_test_resolve_autosend_time_am_stays_am() {
    let raw = 8 * 3600;
    let now = 8 * 3600 + 5;
    assert_eq!(resolve_autosend_time(raw, now), raw);
}

#[test]
fn sportident_test_resolve_autosend_time_pm_gets_12h_added() {
    let raw = 3 * 3600;
    let now = 15 * 3600 + 5;
    assert_eq!(resolve_autosend_time(raw, now), raw + 43_200);
}

#[test]
fn sportident_test_resolve_autosend_time_noon_boundary_with_safety_margin() {
    let raw = 11 * 3600 + 59 * 60 + 58;
    let now = 12 * 3600 + 2;
    assert_eq!(resolve_autosend_time(raw, now), raw);
}

#[test]
fn sportident_test_parse_punch_decodes_card_and_control() {
    let data = [0x01, 0x0F, 0x42, 0x40, 0x00, 0x70, 0x80];
    let now_s = 8 * 3600 + 5;
    let readout = parse_punch(33, &data, now_s).unwrap();

    assert_eq!(readout.card_id, 0x0F4240);
    assert_eq!(readout.punches.len(), 1);
    assert_eq!(readout.punches[0].station, 33);
    assert_eq!(readout.punches[0].time_s, 8 * 3600);
}

#[test]
fn sportident_test_parse_punch_rejects_short_data() {
    assert!(parse_punch(1, &[0x01, 0x00, 0x00], 0).is_none());
}

#[test]
fn test_parse_si9_punch_station_and_pm_not_swapped() {
    let mut data = vec![0u8; 60];
    data[SI9_PUNCH_COUNT_OFFSET] = 1;
    let off = SI9_PUNCH_START_OFFSET;
    data[off] = 0x01;
    data[off + 1] = 33;
    data[off + 2] = 0x70;
    data[off + 3] = 0x80;

    let readout = parse_card_data(CardType::Si9, 0x01, 0x123456, &data).unwrap();
    assert_eq!(readout.punches.len(), 1);
    assert_eq!(readout.punches[0].station, 33);
    assert_eq!(readout.punches[0].time_s, 8 * 3600 + 43_200);
}

#[test]
fn test_parse_si10_uses_different_offsets_than_si9() {
    let mut data = vec![0u8; SI1011_PUNCH_START_OFFSET + 4];
    data[SI1011_PUNCH_COUNT_OFFSET] = 1;
    let off = SI1011_PUNCH_START_OFFSET;
    data[off] = 0x00;
    data[off + 1] = 45;
    data[off + 2] = 0x1C;
    data[off + 3] = 0x20;

    let readout = parse_card_data(CardType::Si9, 0x0F, 0xABCDEF, &data).unwrap();
    assert_eq!(readout.punches.len(), 1);
    assert_eq!(readout.punches[0].station, 45);
    assert_eq!(readout.punches[0].time_s, 2 * 3600);
}

#[test]
fn test_parse_si6_punches() {
    let mut data = vec![0u8; SI6_PUNCH_START_OFFSET + 4];
    data[SI6_PUNCH_COUNT_OFFSET] = 1;
    let off = SI6_PUNCH_START_OFFSET;
    data[off] = 0x00;
    data[off + 1] = 12;
    data[off + 2] = 0x0E;
    data[off + 3] = 0x10;

    let readout = parse_card_data(CardType::Si6, 0x00, 0x1, &data).unwrap();
    assert_eq!(readout.punches.len(), 1);
    assert_eq!(readout.punches[0].station, 12);
    assert_eq!(readout.punches[0].time_s, 3600);
}

#[test]
fn test_parse_si5_punches_skips_reserved_block_byte() {
    let mut data = vec![0u8; SI5_PUNCH_START_OFFSET + 1 + SI5_REC_LEN];
    data[SI5_PUNCH_COUNT_OFFSET] = 2;
    let off = SI5_PUNCH_START_OFFSET + 1;
    data[off] = 7;
    data[off + 1] = 0x03;
    data[off + 2] = 0xE8;

    let readout = parse_si5(0xABCDEF, &data).unwrap();
    assert_eq!(readout.punches.len(), 1);
    assert_eq!(readout.punches[0].station, 7);
    assert_eq!(readout.punches[0].time_s, 1000);
}

#[test]
fn test_parse_backup_record() {
    let mut data = vec![0u8; 3 + 8];
    data[3..6].copy_from_slice(&[0x0F, 0x42, 0x40]);
    data[3 + PUNCH_TIME_OFFSET] = 0x70;
    data[3 + PUNCH_TIME_OFFSET + 1] = 0x80;

    let readout = parse_backup_record(7, &data, 8 * 3600 + 5).unwrap();
    assert_eq!(readout.card_id, 0x0F4240);
    assert_eq!(readout.punches[0].station, 7);
    assert_eq!(readout.punches[0].time_s, 8 * 3600);
}

#[test]
fn test_card_series_from_byte() {
    assert_eq!(CardSeries::from_byte(0x00), CardSeries::Si6);
    assert_eq!(CardSeries::from_byte(0x01), CardSeries::Si9);
    assert_eq!(CardSeries::from_byte(0x02), CardSeries::Si8);
    assert_eq!(CardSeries::from_byte(0x0F), CardSeries::Si10Or11);
    assert_eq!(CardSeries::from_byte(0x04), CardSeries::Other(0x04));
}

#[test]
fn test_crc16_empty_is_zero() {
    assert_eq!(crc16(&[]), 0);
}

#[test]
fn sportident_test_crc16_two_bytes_is_just_the_seed() {
    assert_eq!(crc16(&[0xAB, 0xCD]), 0xABCD);
}

#[test]
fn test_crc16_is_stable_and_input_sensitive() {
    let a = crc16(&[0xEF, 0x00, 0x00, 0x02]);
    let b = crc16(&[0xEF, 0x00, 0x00, 0x02]);
    let c = crc16(&[0xEF, 0x00, 0x00, 0x03]);
    assert_eq!(a, b);
    assert_ne!(a, c);
}

#[test]
fn checksum_detects_every_changed_byte() {
    let data = [0xD3, 0x0D, 0x00, 0x21, 0x01, 0x0F, 0x42, 0x40, 0x00];
    let sum = crc16(&data);
    for i in 0..data.len() {
        for bit in 0..8 {
            let mut other = data;
            other[i] ^= 1 << bit;
            assert_ne!(crc16(&other), sum);
        }
    }
}

#[test]
fn test_punch_payload_round_trips() {
    let original = CardReadout {
        card_id: 0x0F4240,
        punches: vec![
            ControlPunch { station: 33, time_s: 36070 },
            ControlPunch { station: 50, time_s: 37300 },
        ],
    };
    let payload = original.to_payload(12);
    let (origin, decoded) = CardReadout::parse_payload(&payload).unwrap();

    assert_eq!(origin, 12);
    assert_eq!(decoded.card_id, original.card_id);
    assert_eq!(decoded.punches.len(), 2);
    assert_eq!(decoded.punches[0].station, 33);
    assert_eq!(decoded.punches[0].time_s, 36070);
    assert_eq!(decoded.punches[1].station, 50);
    assert_eq!(decoded.punches[1].time_s, 37300);
}

#[test]
fn test_punch_payload_no_punches() {
    let original = CardReadout { card_id: 42, punches: vec![] };
    let (origin, decoded) = CardReadout::parse_payload(&original.to_payload(7)).unwrap();
    assert_eq!(origin, 7);
    assert_eq!(decoded.card_id, 42);
    assert!(decoded.punches.is_empty());
}

#[test]
fn test_punch_payload_rejects_non_punch_text() {
    assert!(CardReadout::parse_payload("HB").is_none());
    assert!(CardReadout::parse_payload("hello?").is_none());
}

#[test]
fn test_to_payload_matches_lora_server_wire_format() {
    let readout = CardReadout {
        card_id: 0x0F4240,
        punches: vec![ControlPunch { station: 33, time_s: 36070 }],
    };
    assert_eq!(readout.to_payload(10), "PUNCH 10 1000000 33:36070");
}

#[test]
fn addressed_payload_names_its_destination() {
    let readout = CardReadout {
        card_id: 7,
        punches: vec![
            ControlPunch { station: 31, time_s: 1 },
            ControlPunch { station: 32, time_s: 2 },
        ],
    };
    let payload = readout.to_addressed_payload(10, 1);
    assert_eq!(payload, "PUNCH 10 1 7 31:1,32:2");
    let (origin, dest, decoded) = CardReadout::parse_addressed_payload(&payload).unwrap();
    assert_eq!((origin, dest, decoded.card_id, decoded.punches.len()), (10, 1, 7, 2));
    assert!(CardReadout::parse_addressed_payload("PUNCH 10 1000000 33:36070").is_none());
}

#[test]
fn command_carries_length_and_checksum() {
    let cmd = build_command(0x83, &[0x74, 0x01]);
    let sum = crc16(&[0x83, 0x02, 0x74, 0x01]);
    assert_eq!(
        cmd,
        vec![0xFF, 0x02, 0x83, 0x02, 0x74, 0x01, (sum >> 8) as u8, sum as u8, 0x03]
    );
    assert_eq!(sys_val_request(O_PROTO), cmd);
}

#[test]
fn length_of_a_long_command_is_cut_to_a_byte() {
    let data = [0x55; 300];
    let cmd = cli::build_command(0x83, &data);
    assert_eq!(cmd.len(), 307);
    assert_eq!(&cmd[..5], &[0xFF, 0x02, 0x83, 44, 0x55]);
    let mut body = vec![0x83, 44];
    body.extend_from_slice(&data);
    let sum = crc16(&body);
    assert_eq!(&cmd[304..], &[(sum >> 8) as u8, sum as u8, 0x03]);
    assert_eq!(cmd, build_command(0x83, &data));
}

#[test]
fn live_punch_is_reported_whatever_surrounds_it() {
    let mut reader = SiReader::new();
    let data = [0x01, 0x0F, 0x42, 0x40, 0x00, 0x70, 0x80];
    let p = packet(0xD3, 33, &data);
    reader.feed(&[0x00, 0x41]);
    reader.feed(&p[..5]);
    assert!(matches!(reader.read_event(8 * 3600 + 5), SiAction::Idle));
    reader.feed(&p[5..]);
    match reader.read_event(8 * 3600 + 5) {
        SiAction::Event(SiEvent::CardReadout(r)) => {
            assert_eq!(r.card_id, 0x0F4240);
            assert_eq!(r.punches[0].station, 33);
        }
        other => panic!("unexpected {:?}", other),
    }
    assert!(matches!(reader.read_event(8 * 3600 + 5), SiAction::Idle));
}

#[test]
fn wrong_checksum_is_noted_and_the_packet_used() {
    let good = packet(0xE7, 1, &[]);
    assert_eq!(crc_fault(&good), None);
    let mut bad = packet(0xE7, 1, &[]);
    let n = bad.len();
    let expected = u16::from_be_bytes([bad[n - 3], bad[n - 2]]);
    bad[n - 2] ^= 1;
    let fault = Fault { cmd: 0xE7, got: expected ^ 1, expected };
    assert_eq!(crc_fault(&bad), Some(fault));

    let mut reader = SiReader::new();
    reader.feed(&good);
    reader.feed(&bad);
    assert!(matches!(reader.read_event(0), SiAction::Event(SiEvent::CardRemoved)));
    assert!(reader.take_faults().is_empty());
    assert!(matches!(reader.read_event(0), SiAction::Event(SiEvent::CardRemoved)));
    assert_eq!(reader.take_faults(), vec![fault]);
    assert!(reader.take_faults().is_empty());
}

#[test]
fn inserted_card_is_read_out_and_its_removal_reported() {
    let mut reader = SiReader::new();
    reader.feed(&packet(0xE8, 1, &[0x01, 0x12, 0x34, 0x56]));
    match reader.read_event(0) {
        SiAction::Send(bytes) => assert_eq!(bytes, build_command(0xEF, &[])),
        other => panic!("unexpected {:?}", other),
    }
    let mut image = vec![0u8; 60];
    image[SI9_PUNCH_COUNT_OFFSET] = 1;
    image[SI9_PUNCH_START_OFFSET + 1] = 33;
    image[SI9_PUNCH_START_OFFSET + 3] = 0x10;
    reader.feed(&packet(0xEF, 1, &image));
    match reader.read_event(0) {
        SiAction::Event(SiEvent::CardReadout(r)) => {
            assert_eq!(r.card_id, 0x123456);
            assert_eq!(r.punches.len(), 1);
            assert_eq!(r.punches[0].station, 33);
            assert_eq!(r.punches[0].time_s, 16);
        }
        other => panic!("unexpected {:?}", other),
    }
    reader.feed(&packet(0xE7, 1, &[0x00, 0x12, 0x34, 0x56]));
    assert!(matches!(reader.read_event(0), SiAction::Event(SiEvent::CardRemoved)));
}

#[test]
fn gap_in_the_backup_memory_is_filled() {
    let mut reader = SiReader::new();
    let punch = |offset: u8| {
        let mut data = vec![0x01, 0x0F, 0x42, 0x40, 0x00, 0x70, 0x80, 0x00];
        data.extend_from_slice(&[0x00, 0x00, offset]);
        packet(0xD3, 33, &data)
    };
    reader.feed(&punch(0));
    assert!(matches!(reader.read_event(0), SiAction::Event(_)));
    reader.feed(&punch(16));
    match reader.read_event(0) {
        SiAction::Recover(bytes, Some(_)) => {
            assert_eq!(bytes, build_command(0x81, &[0x00, 0x00, 0x08, 0x08]));
        }
        other => panic!("unexpected {:?}", other),
    }
    reader.recovery_requested();
    reader.feed(&punch(24));
    assert!(matches!(reader.read_event(0), SiAction::Event(_)));
}

#[test]
fn system_values_and_station_configuration() {
    assert_eq!(sys_val(&ParsedPacket::SysVal { data: vec![0x74, 0x03] }), Some(0x03));
    assert_eq!(sys_val(&ParsedPacket::SysVal { data: vec![0x74] }), None);
    assert_eq!(sys_val(&ParsedPacket::CardRemoved), None);
    let ready = StationConfig::new(0x03, Some(0x02));
    assert!(ready.ext_proto && ready.auto_send && !ready.is_mute_control());
    assert!(StationConfig::new(0x01, Some(0x02)).is_mute_control());
    assert!(StationConfig::new(0x02, Some(0x02)).is_mute_control());
    assert!(!StationConfig::new(0x00, Some(0x05)).is_mute_control());
    assert!(!StationConfig::new(0x00, None).is_mute_control());
}

#[test]
fn terminal_reader_reads_only_the_number_of_other_cards() {
    let r = cli::parse_card_data(CardType::Si5, 99, &[0u8; 10]).unwrap();
    assert_eq!(r.card_id, 99);
    assert!(r.punches.is_empty());
    let r = CardReadout { card_id: 7, punches: vec![ControlPunch { station: 31, time_s: 5 }] };
    assert_eq!(cli::to_payload(&r), "PUNCH 7 31:5");
}

#[test]
fn terminal_reader_reports_live_punches() {
    let mut reader = cli::SiReader::new();
    reader.feed(&packet(0xD3, 33, &[0x01, 0x0F, 0x42, 0x40, 0x00, 0x70, 0x80]));
    match reader.read_event(8 * 3600 + 5) {
        SiAction::Event(SiEvent::CardReadout(r)) => assert_eq!(r.card_id, 0x0F4240),
        other => panic!("unexpected {:?}", other),
    }
}

#[test]
fn time_of_day_in_seconds() {
    assert_eq!(seconds_of_day(0, 0, 0), 0);
    assert_eq!(seconds_of_day(23, 59, 60), 86_400);
    assert_eq!(seconds_of_day(8, 0, 5), 28_805);
}

#[test]
fn stations_are_told_from_other_devices() {
    assert!(is_si_device(Some(0x10C4), Some(0x800A)));
    assert!(!is_si_device(Some(0x10C4), Some(0xEA60)));
    assert!(!is_si_device(None, Some(0x800A)));
    assert_eq!(parse_usb_id("10c4"), Some(0x10C4));
    assert_eq!(parse_usb_id("800A"), Some(0x800A));
    assert_eq!(parse_usb_id("+1"), Some(1));
    assert_eq!(parse_usb_id("10000"), None);
    assert_eq!(parse_usb_id("xyz"), None);
    assert_eq!(parse_usb_id("+"), None);
    assert_eq!(parse_usb_id(""), None);
}

fn ports() -> Vec<Port> {
    vec![
        Port { name: "/dev/ttyS0".to_string(), usb: None },
        Port { name: "/dev/ttyUSB0".to_string(), usb: Some((0x0403, 0x6001)) },
        Port { name: "/dev/ttyUSB1".to_string(), usb: Some((0x10C4, 0x800A)) },
        Port { name: "/dev/ttyUSB2".to_string(), usb: Some((0x10C4, 0x800A)) },
    ]
}

#[test]
fn first_station_is_found_among_the_ports() {
    assert_eq!(find_si_port(&ports()), Some("/dev/ttyUSB1".to_string()));
    assert_eq!(find_si_port(&ports()[..2]), None);
    assert_eq!(si_ports(&ports()), vec!["/dev/ttyUSB1", "/dev/ttyUSB2"]);
}

#[test]
fn device_news_become_events_for_stations_only() {
    let e = device_event(Some("10c4"), Some("800a"), Some("/dev/ttyUSB1"), Change::Added);
    assert!(matches!(e, Some(HotplugEvent::Connected(p)) if p == "/dev/ttyUSB1"));
    let e = device_event(Some("10c4"), Some("800a"), Some("/dev/ttyUSB1"), Change::Removed);
    assert!(matches!(e, Some(HotplugEvent::Disconnected(p)) if p == "/dev/ttyUSB1"));
    assert!(device_event(Some("10c4"), Some("800a"), Some("x"), Change::Other).is_none());
    assert!(device_event(Some("10c4"), Some("800b"), Some("x"), Change::Added).is_none());
    assert!(device_event(Some("10c4"), None, Some("x"), Change::Added).is_none());
    assert!(device_event(Some("10c4"), Some("800a"), None, Change::Added).is_none());
}

#[test]
fn changed_ports_become_events() {
    let known = vec!["a".to_string(), "b".to_string()];
    let current = vec!["b".to_string(), "c".to_string()];
    let events = changes(&known, &current);
    assert_eq!(events.len(), 2);
    assert!(matches!(&events[0], HotplugEvent::Connected(p) if p == "c"));
    assert!(matches!(&events[1], HotplugEvent::Disconnected(p) if p == "a"));
    assert!(changes(&known, &known).is_empty());
}

#[test]
fn worker_reads_one_station_at_a_time() {
    let mut w = SiWorker::new();
    assert_eq!(w.plug(HotplugEvent::Connected("a".to_string())), Some("a".to_string()));
    w.opened(true);
    assert_eq!(w.plug(HotplugEvent::Connected("b".to_string())), None);
    let card = CardReadout { card_id: 7, punches: vec![] };
    let read = w.read(Reading::Event(SiEvent::CardReadout(card)));
    assert_eq!(read.map(|c| c.card_id), Some(7));
    assert!(w.read(Reading::Event(SiEvent::CardRemoved)).is_none());
    assert!(w.read(Reading::Nothing).is_none());
    assert!(w.reading);
    assert!(w.read(Reading::Failed).is_none());
    assert!(!w.reading);
    w.opened(true);
    assert_eq!(w.plug(HotplugEvent::Disconnected("a".to_string())), None);
    assert!(!w.reading);
}
