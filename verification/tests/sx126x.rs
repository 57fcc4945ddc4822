//! Tests of the SX126x modules: register image, bus commands and serial packets.

use lora_online::sx126x::config::{AirSpeed, BufferSize, Config, TxPower};
use lora_online::sx126x::spi::{wait_busy, BusAction, Sx126xSpi, TxStep};
use lora_online::sx126x::uart::{PortRead, RxStep, Sx126xUart, UartAction};
use lora_online::sx126x::{ReceivedPacket, Sx126xError};

fn default_config() -> Config {
    Config {
        freq_mhz: 868,
        addr: 0,
        net_id: 0,
        power: TxPower::Dbm22,
        air_speed: AirSpeed::Bps2400,
        buffer_size: BufferSize::Bytes240,
        rssi: true,
        crypt: 0,
    }
}

fn uart(config: Config) -> Sx126xUart<(), (), (), ()> {
    let mut radio = Sx126xUart::new((), (), (), ());
    radio.config = config;
    radio
}

fn config_ack() -> [u8; 12] {
    let mut ack = [0u8; 12];
    ack[0] = 0xC1;
    ack
}

#[test]
fn test_register_header() {
    let regs = default_config().to_registers();
    assert_eq!(regs[0], 0xC0);
    assert_eq!(regs[1], 0x00);
    assert_eq!(regs[2], 0x09);
}

#[test]
fn test_addr_encoding() {
    let mut cfg = default_config();
    cfg.addr = 0x0102;
    let regs = cfg.to_registers();
    assert_eq!(regs[3], 0x01);
    assert_eq!(regs[4], 0x02);
}

#[test]
fn test_freq_encoding_850_band() {
    let regs = default_config().to_registers();
    assert_eq!(regs[8], 18);
}

#[test]
fn test_freq_encoding_410_band() {
    let mut cfg = default_config();
    cfg.freq_mhz = 433;
    let regs = cfg.to_registers();
    assert_eq!(regs[8], 23);
}

#[test]
fn test_air_speed_2400() {
    let regs = default_config().to_registers();
    assert_eq!(regs[6], 0x60 | 0x02);
}

#[test]
fn test_power_22dbm() {
    let regs = default_config().to_registers();
    assert_eq!(regs[7], 0x00);
}

#[test]
fn test_rssi_enabled() {
    let regs = default_config().to_registers();
    assert_eq!(regs[9], 0x40 | 0x80);
}

#[test]
fn test_rssi_disabled() {
    let mut cfg = default_config();
    cfg.rssi = false;
    let regs = cfg.to_registers();
    assert_eq!(regs[9], 0x40);
}

#[test]
fn test_crypt_encoding() {
    let mut cfg = default_config();
    cfg.crypt = 0xABCD;
    let regs = cfg.to_registers();
    assert_eq!(regs[10], 0xAB);
    assert_eq!(regs[11], 0xCD);
}

#[test]
fn test_buffer_size_32() {
    let mut cfg = default_config();
    cfg.buffer_size = BufferSize::Bytes32;
    let regs = cfg.to_registers();
    assert_eq!(regs[7] & 0xC0, 0xC0);
}

#[test]
fn test_invalid_freq_returns_none() {
    let mut cfg = default_config();
    cfg.freq_mhz = 600;
    assert!(cfg.to_registers_checked().is_none());
}

#[test]
fn frequency_bands_end_where_the_hardware_ends() {
    assert_eq!(Config::freq_offset(850), Some((850, 0)));
    assert_eq!(Config::freq_offset(930), Some((850, 80)));
    assert_eq!(Config::freq_offset(410), Some((410, 0)));
    assert_eq!(Config::freq_offset(493), Some((410, 83)));
    assert_eq!(Config::freq_offset(849), None);
    assert_eq!(Config::freq_offset(931), None);
    assert_eq!(Config::freq_offset(409), None);
    assert_eq!(Config::freq_offset(494), None);
}

#[test]
fn register_values() {
    assert_eq!(TxPower::Dbm10.register_value(), 3);
    assert_eq!(TxPower::Dbm10.dbm(), 10);
    assert_eq!(AirSpeed::Bps62500.register_value(), 7);
    assert_eq!(BufferSize::Bytes64.register_value(), 0x80);
}

#[test]
fn test_send_command_writes_bytes() {
    let radio = Sx126xSpi::new((), (), ());
    assert_eq!(
        radio.send_command(&[0x80, 0x00]),
        vec![BusAction::WaitReady, BusAction::Write(vec![0x80, 0x00])]
    );
}

#[test]
fn test_rf_frequency_calculation() {
    let rf_freq = Sx126xSpi::<(), (), ()>::freq_to_register(868);
    assert!(rf_freq > 0x3600_0000 && rf_freq < 0x3700_0000);
}

#[test]
fn transmission_ends_when_the_module_says_so() {
    let radio = Sx126xSpi::new((), (), ());
    let (mut tx, actions) = radio.send(b"hi");
    assert!(actions.contains(&BusAction::Write(vec![0x0E, 0x00, b'h', b'i'])));
    assert!(matches!(tx.step::<()>([0x00, 0x00]), Ok(TxStep::Look(_))));
    assert_eq!(
        tx.step::<()>([0x00, 0x01]),
        Ok(TxStep::Done(vec![BusAction::WaitReady, BusAction::Write(vec![0x02, 0xFF, 0xFF])]))
    );
}

#[test]
fn transmission_is_given_up() {
    let radio = Sx126xSpi::new((), (), ());
    let (mut tx, _) = radio.send(b"hi");
    let mut looks = 0;
    loop {
        looks += 1;
        match tx.step::<()>([0x00, 0x00]) {
            Ok(TxStep::Look(_)) => {}
            Ok(TxStep::Done(_)) => panic!("nothing was sent"),
            Err(e) => {
                assert_eq!(e, Sx126xError::Timeout);
                break;
            }
        }
    }
    assert_eq!(tx.looks, looks);
    assert!(looks > 1);
}

#[test]
fn reception_reads_the_packet_where_it_lies() {
    let radio = Sx126xSpi::new((), (), ());
    assert!(radio.receive_status([0x00, 0x00]).is_none());
    assert!(radio.receive_status([0x00, 0x02]).is_some());
    let read = radio.receive_buffer([3, 0x80]);
    assert_eq!(
        read,
        vec![BusAction::Transfer(vec![0x1E, 0x80, 0x00]), BusAction::Read(3)]
    );
    let pkt = radio.received(&[1, 2, 3]);
    assert_eq!(pkt.src_addr, 0);
    assert_eq!(pkt.rssi, None);
    assert_eq!(pkt.payload.as_slice(), &[1, 2, 3]);
}

#[test]
fn busy_line_is_watched_for_a_while() {
    assert!(!wait_busy(1, true));
    assert!(wait_busy(1, false));
    assert!(!wait_busy(u32::MAX, false));
}

#[test]
fn test_configure_writes_correct_registers() {
    let mut radio = Sx126xUart::new((), (), (), ());
    let mut actions = radio.configure::<()>(&default_config()).unwrap();
    actions.extend(radio.configured::<()>(config_ack()).unwrap());

    let m0: Vec<bool> = actions
        .iter()
        .filter_map(|a| match a {
            UartAction::M0(h) => Some(*h),
            _ => None,
        })
        .collect();
    let m1: Vec<bool> = actions
        .iter()
        .filter_map(|a| match a {
            UartAction::M1(h) => Some(*h),
            _ => None,
        })
        .collect();
    assert_eq!(m0, vec![false, false, false]);
    assert_eq!(m1, vec![false, true, false]);

    let written: Vec<u8> = actions
        .iter()
        .filter_map(|a| match a {
            UartAction::WriteAll(b) => Some(b.clone()),
            _ => None,
        })
        .flatten()
        .collect();
    let expected_regs = default_config().to_registers();
    assert_eq!(&written[..12], &expected_regs);
    assert_eq!(radio.last_configure_ack, config_ack());
}

#[test]
fn configuration_fails_without_an_answer_or_a_channel() {
    let mut radio = Sx126xUart::new((), (), (), ());
    radio.configure::<()>(&default_config()).unwrap();
    assert_eq!(radio.configured::<()>([0u8; 12]), Err(Sx126xError::Timeout));

    let mut cfg = default_config();
    cfg.freq_mhz = 600;
    assert_eq!(radio.configure::<()>(&cfg), Err(Sx126xError::InvalidConfig));
}

#[test]
fn configuration_is_written_only_where_it_differs() {
    let mut radio = Sx126xUart::new((), (), (), ());
    let mut image = default_config().to_registers();
    image[0] = 0xC1;
    assert_eq!(radio.configure_if_needed::<()>(&default_config(), image), Ok(false));
    image[4] ^= 1;
    assert_eq!(radio.configure_if_needed::<()>(&default_config(), image), Ok(true));
}

#[test]
fn test_send_writes_correct_packet() {
    let radio = uart(default_config());
    let actions = radio.send(1, b"hello");
    let written: Vec<u8> = actions
        .iter()
        .filter_map(|a| match a {
            UartAction::WriteAll(b) => Some(b.clone()),
            _ => None,
        })
        .flatten()
        .collect();
    let freq_off = default_config().freq_offset_byte();
    let expected = [0x00, 0x01, freq_off, 0x00, 0x00, b'h', b'e', b'l', b'l', b'o'];
    assert_eq!(written, expected);
    assert_eq!(actions[0], UartAction::M0(false));
    assert_eq!(actions[1], UartAction::M1(false));
}

/// Receives from a port that holds `bytes` and then falls silent.
fn receive(
    radio: &Sx126xUart<(), (), (), ()>,
    bytes: &[u8],
) -> Result<Option<ReceivedPacket>, Sx126xError<()>> {
    let mut op = radio.receive();
    let mut rest = bytes;
    loop {
        let n = op.due();
        let got = if rest.len() < n {
            PortRead::Nothing
        } else {
            let (front, back) = rest.split_at(n);
            rest = back;
            PortRead::Bytes(front.to_vec())
        };
        match op.step::<()>(got) {
            RxStep::More => {}
            RxStep::Finished(r) => return r,
        }
    }
}

#[test]
fn test_receive_returns_none_when_empty() {
    let radio = uart(default_config());
    assert!(receive(&radio, &[]).unwrap().is_none());
}

#[test]
fn test_receive_parses_packet_with_rssi() {
    let radio = uart(default_config());
    let pkt = receive(&radio, &[0x00, 0x01, b'h', b'i', 174u8]).unwrap().unwrap();
    assert_eq!(pkt.src_addr, 1);
    assert_eq!(pkt.rssi, Some(-82));
    assert_eq!(pkt.payload.as_slice(), b"hi");
}

#[test]
fn test_receive_parses_packet_without_rssi() {
    let mut cfg = default_config();
    cfg.rssi = false;
    let radio = uart(cfg);
    let pkt = receive(&radio, &[0x00, 0x02, b'o', b'k']).unwrap().unwrap();
    assert_eq!(pkt.src_addr, 2);
    assert_eq!(pkt.rssi, None);
    assert_eq!(pkt.payload.as_slice(), b"ok");
}

#[test]
fn overlong_packet_loses_its_end() {
    let mut cfg = default_config();
    cfg.rssi = false;
    let radio = uart(cfg);
    let mut bytes = vec![0u8; 2];
    bytes.extend((0..250).map(|i| i as u8));
    let pkt = receive(&radio, &bytes).unwrap().unwrap();
    assert_eq!(pkt.payload.len(), 240);
    assert_eq!(pkt.payload[239], 239);
}

#[test]
fn failing_port_fails_the_reception() {
    let radio = uart(default_config());
    let mut op = radio.receive();
    assert!(matches!(op.step(PortRead::Bytes(vec![0, 1])), RxStep::<()>::More));
    assert!(matches!(
        op.step(PortRead::Failed(7)),
        RxStep::Finished(Err(Sx126xError::Transport(7)))
    ));
}

#[test]
fn serial_error_messages() {
    assert_eq!(Sx126xError::Transport(()).message("port"), "transport error: port");
    assert_eq!(Sx126xError::<()>::InvalidConfig.message(""), "invalid configuration");
    assert_eq!(Sx126xError::<()>::Timeout.message(""), "module did not respond");
}
