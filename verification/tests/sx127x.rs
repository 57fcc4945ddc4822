//! Tests of the SX127x driver: modem arithmetic and the actions on the bus.

use lora_online::sx127x::driver::{fifo, register, ReceiveStep, SendStep};
use lora_online::sx127x::packet::payload_from;
use lora_online::sx127x::spi;
use lora_online::sx127x::spi::{
    Completion, Reply, SpiAction, Wait, WaitFor, WaitStep, DIO0_MAPPING_CADDONE,
    DIO0_MAPPING_TXDONE, IRQ_CAD_DETECTED, IRQ_CAD_DONE, IRQ_PAYLOAD_CRC_ERROR, IRQ_RX_DONE,
    IRQ_TX_DONE, LONG_RANGE_MODE, MODE_CAD, MODE_RXCONTINUOUS, MODE_SLEEP, MODE_STDBY, MODE_TX,
    REG_DIO_MAPPING1, REG_FIFO, REG_FIFO_ADDR_PTR, REG_FIFO_RX_BASE_ADDR,
    REG_FIFO_RX_CURRENT_ADDR, REG_IRQ_FLAGS, REG_OP_MODE, REG_PAYLOAD_LENGTH, REG_PKT_RSSI_VALUE,
    REG_RX_NB_BYTES, REG_SYNC_WORD, REG_VERSION,
};
use lora_online::sx127x::{
    Bandwidth, CodingRate, Config, DioWait, NoWaiter, ReceivedPacket, Sx127xError, Sx127xSpi,
    TimeoutKind,
};

fn write(addr: u8, value: u8) -> SpiAction {
    SpiAction::Write(vec![addr | 0x80, value])
}

fn flags_read() -> SpiAction {
    SpiAction::Transfer(vec![REG_IRQ_FLAGS & 0x7F, 0x00])
}

fn flags(value: u8) -> Reply {
    Reply::Transferred(vec![0x00, value])
}

/// Runs a sending against the expected actions and their replies.
fn run_send<D, W>(
    radio: &Sx127xSpi<(), (), (), D, W>,
    payload: &[u8],
    script: Vec<(SpiAction, Reply)>,
) -> Result<(), Sx127xError<()>> {
    let (mut op, mut action) = radio.send::<()>(0, payload)?;
    for (expected, reply) in script {
        assert_eq!(action, expected);
        match op.step::<()>(&reply) {
            SendStep::More(next) => action = next,
            SendStep::Finished(r) => return r,
        }
    }
    panic!("the script is too short: {:?} is due", action);
}

/// Runs a wait against the expected actions and their replies.
fn run_wait(begun: (Wait, SpiAction), script: Vec<(SpiAction, Reply)>) -> Result<u8, TimeoutKind> {
    let (mut wait, mut action) = begun;
    let n = script.len();
    for (i, (expected, reply)) in script.into_iter().enumerate() {
        assert_eq!(action, expected);
        match wait.step(&reply) {
            WaitStep::More(w, a) => {
                wait = w;
                action = a;
            }
            WaitStep::Ready(irq) => {
                assert_eq!(i + 1, n);
                return Ok(irq);
            }
            WaitStep::TimedOut(kind) => {
                assert_eq!(i + 1, n);
                return Err(kind);
            }
        }
    }
    panic!("the script is too short: {:?} is due", action);
}

/// Runs a reception against the expected actions and their replies.
fn run_receive(script: Vec<(SpiAction, Reply)>) -> Option<ReceivedPacket> {
    let radio = Sx127xSpi::new((), (), ());
    let (mut op, mut action) = radio.receive();
    for (expected, reply) in script {
        assert_eq!(action, expected);
        match op.step(&reply) {
            ReceiveStep::More(next) => action = next,
            ReceiveStep::Finished(r) => return r,
        }
    }
    panic!("the script is too short: {:?} is due", action);
}

fn read(addr: u8) -> SpiAction {
    SpiAction::Transfer(vec![addr & 0x7F, 0x00])
}

#[test]
fn test_tx_airtime_matches_published_punch_frame_figures() {
    let sf7 = Config { spreading_factor: 7, bandwidth: Bandwidth::Khz125, ..Default::default() };
    assert_eq!(sf7.tx_airtime_us(30), 71_936);

    let sf11 = Config { spreading_factor: 11, bandwidth: Bandwidth::Khz125, ..Default::default() };
    assert_eq!(sf11.tx_airtime_us(30), 905_216);
}

#[test]
fn test_tx_airtime_increases_with_spreading_factor() {
    let base = Config { bandwidth: Bandwidth::Khz125, ..Default::default() };
    let mut last = 0;
    for sf in 7..=12 {
        let airtime = Config { spreading_factor: sf, ..base.clone() }.tx_airtime_us(20);
        assert!(airtime > last, "SF{} airtime {} should exceed SF{}'s {}", sf, airtime, sf - 1, last);
        last = airtime;
    }
}

#[test]
fn test_tx_airtime_increases_with_payload_length() {
    let cfg = Config { spreading_factor: 9, bandwidth: Bandwidth::Khz125, ..Default::default() };
    assert!(cfg.tx_airtime_us(50) > cfg.tx_airtime_us(10));
}

#[test]
fn test_cad_timeout_scales_with_symbol_period() {
    let sf7 = Config { spreading_factor: 7, bandwidth: Bandwidth::Khz125, ..Default::default() };
    let sf11 = Config { spreading_factor: 11, bandwidth: Bandwidth::Khz125, ..Default::default() };
    assert_eq!(sf11.cad_timeout_us(), sf7.cad_timeout_us() * 16);
    assert_eq!(sf7.cad_timeout_us(), (1024 * 3) as u32);
}

#[test]
fn test_tx_timeout_is_generous_margin_over_airtime() {
    let cfg = Config { spreading_factor: 10, bandwidth: Bandwidth::Khz125, ..Default::default() };
    let airtime = cfg.tx_airtime_us(20);
    assert_eq!(cfg.tx_timeout_us(20) as u64, airtime * 2);
}

#[test]
fn test_bandwidth_from_hz_round_trips_every_variant() {
    for bw in [
        Bandwidth::Khz7_8,
        Bandwidth::Khz10_4,
        Bandwidth::Khz15_6,
        Bandwidth::Khz20_8,
        Bandwidth::Khz31_25,
        Bandwidth::Khz41_7,
        Bandwidth::Khz62_5,
        Bandwidth::Khz125,
        Bandwidth::Khz250,
        Bandwidth::Khz500,
    ] {
        assert_eq!(Bandwidth::from_hz(bw.hz()), Some(bw));
    }
}

#[test]
fn test_bandwidth_from_hz_rejects_unsupported_value() {
    assert_eq!(Bandwidth::from_hz(100_000), None);
}

#[test]
fn test_coding_rate_from_denominator_round_trips_every_variant() {
    for cr in [CodingRate::Cr4_5, CodingRate::Cr4_6, CodingRate::Cr4_7, CodingRate::Cr4_8] {
        assert_eq!(CodingRate::from_denominator(cr.denominator()), Some(cr));
    }
}

#[test]
fn test_coding_rate_from_denominator_rejects_unsupported_value() {
    assert_eq!(CodingRate::from_denominator(9), None);
}

#[test]
fn test_frf_register_433mhz() {
    let cfg = Config { freq_hz: 433_000_000, ..Default::default() };
    assert!(cfg.frf_register() > 0x6C0000 && cfg.frf_register() < 0x6C8000);
}

#[test]
fn frequency_register_of_434_mhz_is_the_one_of_the_datasheet() {
    let cfg = Config { freq_hz: 434_000_000, ..Default::default() };
    assert_eq!(cfg.frf_register(), 0x6C8000);
}

#[test]
fn test_pa_config_17dbm() {
    let cfg = Config { tx_power_dbm: 17, ..Default::default() };
    assert_eq!(cfg.pa_config_bytes(), (0x8F, 0x84));
}

#[test]
fn test_pa_config_20dbm_enables_boost() {
    let cfg = Config { tx_power_dbm: 20, ..Default::default() };
    assert_eq!(cfg.pa_config_bytes(), (0x8F, 0x87));
}

#[test]
fn test_low_data_rate_optimize_sf11_125khz() {
    let cfg = Config { spreading_factor: 11, bandwidth: Bandwidth::Khz125, ..Default::default() };
    assert!(cfg.low_data_rate_optimize());
}

#[test]
fn test_low_data_rate_optimize_sf7_125khz_not_needed() {
    let cfg = Config { spreading_factor: 7, bandwidth: Bandwidth::Khz125, ..Default::default() };
    assert!(!cfg.low_data_rate_optimize());
}

#[test]
fn register_values_of_bandwidths_and_coding_rates() {
    assert_eq!(Bandwidth::Khz7_8.register_value(), 0);
    assert_eq!(Bandwidth::Khz125.register_value(), 7);
    assert_eq!(Bandwidth::Khz500.register_value(), 9);
    assert_eq!(CodingRate::Cr4_5.register_value(), 1);
    assert_eq!(CodingRate::Cr4_8.register_value(), 4);
}

#[test]
fn test_read_register_returns_version() {
    assert_eq!(
        spi::read_register(REG_VERSION),
        SpiAction::Transfer(vec![REG_VERSION & 0x7F, 0x00])
    );
    assert_eq!(register(&Reply::Transferred(vec![0x00, 0x12])), 0x12);
}

#[test]
fn test_read_fifo_single_transfer_no_byte_shift() {
    assert_eq!(
        spi::read_fifo(3),
        SpiAction::Transfer(vec![REG_FIFO & 0x7F, 0x00, 0x00, 0x00])
    );
    let out = fifo(&Reply::Transferred(vec![0x00, 0xAA, 0xBB, 0xCC]));
    assert_eq!(out, [0xAA, 0xBB, 0xCC]);
}

#[test]
fn test_send_happy_path_clear_channel_transmits_successfully() {
    let radio = Sx127xSpi::new((), (), ());
    let r = run_send(
        &radio,
        &[0xAB],
        vec![
            (write(REG_OP_MODE, LONG_RANGE_MODE | MODE_STDBY), Reply::Done),
            (write(REG_IRQ_FLAGS, 0xFF), Reply::Done),
            (write(REG_OP_MODE, LONG_RANGE_MODE | MODE_CAD), Reply::Done),
            (flags_read(), flags(IRQ_CAD_DONE)),
            (write(REG_IRQ_FLAGS, 0xFF), Reply::Done),
            (write(REG_FIFO_ADDR_PTR, 0x00), Reply::Done),
            (write(REG_PAYLOAD_LENGTH, 0x03), Reply::Done),
            (SpiAction::Write(vec![REG_FIFO | 0x80, 0x00, 0x00, 0xAB]), Reply::Done),
            (write(REG_IRQ_FLAGS, 0xFF), Reply::Done),
            (write(REG_OP_MODE, LONG_RANGE_MODE | MODE_TX), Reply::Done),
            (flags_read(), flags(IRQ_TX_DONE)),
            (write(REG_IRQ_FLAGS, 0xFF), Reply::Done),
        ],
    );
    assert!(r.is_ok());
}

#[test]
fn test_send_returns_channel_busy_when_cad_detects_activity() {
    let radio = Sx127xSpi::new((), (), ());
    let r = run_send(
        &radio,
        &[0xAB],
        vec![
            (write(REG_OP_MODE, LONG_RANGE_MODE | MODE_STDBY), Reply::Done),
            (write(REG_IRQ_FLAGS, 0xFF), Reply::Done),
            (write(REG_OP_MODE, LONG_RANGE_MODE | MODE_CAD), Reply::Done),
            (flags_read(), flags(IRQ_CAD_DONE | IRQ_CAD_DETECTED)),
            (write(REG_IRQ_FLAGS, 0xFF), Reply::Done),
            (write(REG_OP_MODE, LONG_RANGE_MODE | MODE_STDBY), Reply::Done),
        ],
    );
    assert!(matches!(r, Err(Sx127xError::ChannelBusy)));
}

#[test]
fn test_send_via_dio0_happy_path_clear_channel_transmits_successfully() {
    let radio = Sx127xSpi::new_with_dio0((), (), (), ());
    let r = run_send(
        &radio,
        &[0xAB],
        vec![
            (write(REG_OP_MODE, LONG_RANGE_MODE | MODE_STDBY), Reply::Done),
            (write(REG_IRQ_FLAGS, 0xFF), Reply::Done),
            (write(REG_OP_MODE, LONG_RANGE_MODE | MODE_CAD), Reply::Done),
            (write(REG_DIO_MAPPING1, DIO0_MAPPING_CADDONE), Reply::Done),
            (SpiAction::ReadDio0, Reply::Level(true)),
            (flags_read(), flags(IRQ_CAD_DONE)),
            (write(REG_IRQ_FLAGS, 0xFF), Reply::Done),
            (write(REG_FIFO_ADDR_PTR, 0x00), Reply::Done),
            (write(REG_PAYLOAD_LENGTH, 0x03), Reply::Done),
            (SpiAction::Write(vec![REG_FIFO | 0x80, 0x00, 0x00, 0xAB]), Reply::Done),
            (write(REG_IRQ_FLAGS, 0xFF), Reply::Done),
            (write(REG_OP_MODE, LONG_RANGE_MODE | MODE_TX), Reply::Done),
            (write(REG_DIO_MAPPING1, DIO0_MAPPING_TXDONE), Reply::Done),
            (SpiAction::ReadDio0, Reply::Level(true)),
            (flags_read(), flags(IRQ_TX_DONE)),
            (write(REG_IRQ_FLAGS, 0xFF), Reply::Done),
        ],
    );
    assert!(r.is_ok());
}

#[test]
fn test_send_via_dio0_returns_channel_busy_when_cad_detects_activity() {
    let radio = Sx127xSpi::new_with_dio0((), (), (), ());
    let r = run_send(
        &radio,
        &[0xAB],
        vec![
            (write(REG_OP_MODE, LONG_RANGE_MODE | MODE_STDBY), Reply::Done),
            (write(REG_IRQ_FLAGS, 0xFF), Reply::Done),
            (write(REG_OP_MODE, LONG_RANGE_MODE | MODE_CAD), Reply::Done),
            (write(REG_DIO_MAPPING1, DIO0_MAPPING_CADDONE), Reply::Done),
            (SpiAction::ReadDio0, Reply::Level(true)),
            (flags_read(), flags(IRQ_CAD_DONE | IRQ_CAD_DETECTED)),
            (write(REG_IRQ_FLAGS, 0xFF), Reply::Done),
            (write(REG_OP_MODE, LONG_RANGE_MODE | MODE_STDBY), Reply::Done),
        ],
    );
    assert!(matches!(r, Err(Sx127xError::ChannelBusy)));
}

#[test]
fn test_write_register_sets_write_bit() {
    assert_eq!(
        spi::write_register(REG_SYNC_WORD, 0x34),
        SpiAction::Write(vec![REG_SYNC_WORD | 0x80, 0x34])
    );
}

#[test]
fn test_send_rejects_oversized_payload_without_touching_the_radio() {
    let radio = Sx127xSpi::new((), (), ());
    let oversized = vec![0u8; 241];
    match radio.send::<()>(0, &oversized) {
        Err(Sx127xError::PayloadTooLarge { len, max }) => {
            assert_eq!(len, 241);
            assert_eq!(max, 240);
        }
        other => panic!("expected PayloadTooLarge, got {:?}", other.map(|(_, a)| a)),
    }
}

#[test]
fn largest_payload_is_sent() {
    let radio = Sx127xSpi::new((), (), ());
    assert!(radio.send::<()>(0, &[0u8; 240]).is_ok());
}

#[test]
fn test_hardware_reset_toggles_pin() {
    let levels: Vec<bool> = spi::hardware_reset()
        .into_iter()
        .filter_map(|a| match a {
            SpiAction::Reset(high) => Some(high),
            _ => None,
        })
        .collect();
    assert_eq!(levels, vec![false, true]);
}

#[test]
fn test_wait_for_cad_timeout_reports_channel_activity_detection_kind() {
    let radio = Sx127xSpi::new((), (), ());
    let r = run_wait(
        radio.wait_for(WaitFor::CadDone, 200),
        vec![
            (flags_read(), flags(0x00)),
            (SpiAction::DelayUs(100), Reply::Done),
            (flags_read(), flags(0x00)),
            (SpiAction::DelayUs(100), Reply::Done),
        ],
    );
    assert_eq!(r, Err(TimeoutKind::ChannelActivityDetection));
}

#[test]
fn test_wait_for_via_dio0_txdone_timeout_reports_txdone_kind() {
    let radio = Sx127xSpi::new_with_dio0((), (), (), ());
    let r = run_wait(
        radio.wait_for(WaitFor::TxDone, 200),
        vec![
            (write(REG_DIO_MAPPING1, DIO0_MAPPING_TXDONE), Reply::Done),
            (SpiAction::ReadDio0, Reply::Level(false)),
            (SpiAction::DelayUs(100), Reply::Done),
            (SpiAction::ReadDio0, Reply::Level(false)),
            (SpiAction::DelayUs(100), Reply::Done),
        ],
    );
    assert_eq!(r, Err(TimeoutKind::TxDone));
}

#[test]
fn test_wait_for_via_waiter_happy_path_calls_wait_high_exactly_once() {
    let radio = Sx127xSpi::new_with_dio0_waiter((), (), (), ());
    let r = run_wait(
        radio.wait_for(WaitFor::CadDone, 30_000),
        vec![
            (write(REG_DIO_MAPPING1, DIO0_MAPPING_CADDONE), Reply::Done),
            (SpiAction::WaitDio0(30_000), Reply::Level(true)),
            (flags_read(), flags(IRQ_CAD_DONE)),
        ],
    );
    assert_eq!(r, Ok(IRQ_CAD_DONE));
}

#[test]
fn test_wait_for_via_waiter_timeout_reports_correct_kind() {
    let radio = Sx127xSpi::new_with_dio0_waiter((), (), (), ());
    let r = run_wait(
        radio.wait_for(WaitFor::TxDone, 30_000),
        vec![
            (write(REG_DIO_MAPPING1, DIO0_MAPPING_TXDONE), Reply::Done),
            (SpiAction::WaitDio0(30_000), Reply::Level(false)),
        ],
    );
    assert_eq!(r, Err(TimeoutKind::TxDone));
}

#[test]
fn sending_reports_a_transmission_that_never_completes() {
    let mut radio = Sx127xSpi::new_with_dio0_waiter((), (), (), ());
    let cfg = Config { addr: 0x0102, ..Default::default() };
    radio.configure(&cfg);
    let cad = cfg.cad_timeout_us();
    let tx = cfg.tx_timeout_us(3);
    let r = run_send(
        &radio,
        &[0xAB],
        vec![
            (write(REG_OP_MODE, LONG_RANGE_MODE | MODE_STDBY), Reply::Done),
            (write(REG_IRQ_FLAGS, 0xFF), Reply::Done),
            (write(REG_OP_MODE, LONG_RANGE_MODE | MODE_CAD), Reply::Done),
            (write(REG_DIO_MAPPING1, DIO0_MAPPING_CADDONE), Reply::Done),
            (SpiAction::WaitDio0(cad), Reply::Level(true)),
            (flags_read(), flags(IRQ_CAD_DONE)),
            (write(REG_IRQ_FLAGS, 0xFF), Reply::Done),
            (write(REG_FIFO_ADDR_PTR, 0x00), Reply::Done),
            (write(REG_PAYLOAD_LENGTH, 0x03), Reply::Done),
            (SpiAction::Write(vec![REG_FIFO | 0x80, 0x01, 0x02, 0xAB]), Reply::Done),
            (write(REG_IRQ_FLAGS, 0xFF), Reply::Done),
            (write(REG_OP_MODE, LONG_RANGE_MODE | MODE_TX), Reply::Done),
            (write(REG_DIO_MAPPING1, DIO0_MAPPING_TXDONE), Reply::Done),
            (SpiAction::WaitDio0(tx), Reply::Level(false)),
        ],
    );
    assert!(matches!(r, Err(Sx127xError::Timeout(TimeoutKind::TxDone))));
}

#[test]
fn configuring_starts_with_a_reset_and_ends_in_standby() {
    let mut radio = Sx127xSpi::new((), (), ());
    let cfg = Config { addr: 12, sync_word: 0x34, ..Default::default() };
    let plan = radio.configure(&cfg);
    assert_eq!(radio.addr, 12);
    assert_eq!(radio.config, cfg);
    assert_eq!(plan[0], SpiAction::Reset(false));
    assert!(plan.contains(&write(REG_OP_MODE, LONG_RANGE_MODE | MODE_SLEEP)));
    assert!(plan.contains(&write(REG_SYNC_WORD, 0x34)));
    assert_eq!(plan.last(), Some(&write(REG_OP_MODE, LONG_RANGE_MODE | MODE_STDBY)));
}

#[test]
fn receiving_starts_to_listen_first() {
    let r = run_receive(vec![
        (read(REG_OP_MODE), flags(LONG_RANGE_MODE | MODE_STDBY)),
        (write(REG_FIFO_RX_BASE_ADDR, 0x00), Reply::Done),
        (write(REG_OP_MODE, LONG_RANGE_MODE | MODE_RXCONTINUOUS), Reply::Done),
    ]);
    assert!(r.is_none());
}

#[test]
fn received_packet_carries_sender_strength_and_payload() {
    let r = run_receive(vec![
        (read(REG_OP_MODE), flags(LONG_RANGE_MODE | MODE_RXCONTINUOUS)),
        (flags_read(), flags(IRQ_RX_DONE)),
        (write(REG_IRQ_FLAGS, 0xFF), Reply::Done),
        (read(REG_RX_NB_BYTES), flags(4)),
        (read(REG_FIFO_RX_CURRENT_ADDR), flags(0x10)),
        (write(REG_FIFO_ADDR_PTR, 0x10), Reply::Done),
        (
            SpiAction::Transfer(vec![REG_FIFO & 0x7F, 0, 0, 0, 0]),
            Reply::Transferred(vec![0x00, 0x01, 0x02, 0xAA, 0xBB]),
        ),
        (read(REG_PKT_RSSI_VALUE), flags(64)),
    ]);
    let pkt = r.unwrap();
    assert_eq!(pkt.src_addr, 0x0102);
    assert_eq!(pkt.rssi, Some(-100));
    assert_eq!(pkt.payload.as_slice(), &[0xAA, 0xBB]);
}

#[test]
fn damaged_packet_is_dropped() {
    let r = run_receive(vec![
        (read(REG_OP_MODE), flags(LONG_RANGE_MODE | MODE_RXCONTINUOUS)),
        (flags_read(), flags(IRQ_RX_DONE | IRQ_PAYLOAD_CRC_ERROR)),
        (write(REG_IRQ_FLAGS, 0xFF), Reply::Done),
    ]);
    assert!(r.is_none());
}

#[test]
fn nothing_received() {
    let r = run_receive(vec![
        (read(REG_OP_MODE), flags(LONG_RANGE_MODE | MODE_RXCONTINUOUS)),
        (flags_read(), flags(0)),
    ]);
    assert!(r.is_none());
}

#[test]
fn payload_vector_takes_all_or_nothing() {
    assert_eq!(payload_from(&[1, 2, 3]).as_slice(), &[1, 2, 3]);
    assert_eq!(payload_from(&[7u8; 240]).len(), 240);
    assert!(payload_from(&[7u8; 241]).is_empty());
}

#[test]
fn completion_prefers_the_blocking_line() {
    assert_eq!(Sx127xSpi::new((), (), ()).completion(), Completion::PollFlags);
    assert_eq!(Sx127xSpi::new_with_dio0((), (), (), ()).completion(), Completion::PollDio0);
    assert_eq!(
        Sx127xSpi::new_with_dio0_waiter((), (), (), ()).completion(),
        Completion::AwaitDio0
    );
    assert_eq!(NoWaiter.wait_high(5), Ok(false));
}

#[test]
fn error_messages() {
    assert_eq!(Sx127xError::Transport(()).message("bus"), "transport error: bus");
    assert_eq!(Sx127xError::<()>::InvalidConfig.message(""), "invalid configuration");
    assert_eq!(
        Sx127xError::<()>::Timeout(TimeoutKind::ChannelActivityDetection).message(""),
        "module did not respond: channel activity detection never completed"
    );
    assert_eq!(
        Sx127xError::<()>::Timeout(TimeoutKind::TxDone).message(""),
        "module did not respond: TX completion (TxDone) never observed"
    );
    assert_eq!(
        Sx127xError::<()>::PayloadTooLarge { len: 241, max: 240 }.message(""),
        "payload too large: 241 bytes (max 240)"
    );
    assert_eq!(
        Sx127xError::<()>::ChannelBusy.message(""),
        "channel busy (CAD detected activity)"
    );
}
