//! A bare transceiver on an SPI bus, with a busy and a reset line.
//!
//! What has to be done on the bus is given as lists of actions, each up to the
//! next bytes read; what was read is judged here.

use vstd::prelude::*;
use super::config::{Config, TxPower};
use super::{ReceivedPacket, Sx126xError};
use crate::sx127x::packet::payload_from;

verus! {

pub const CMD_SET_STANDBY: u8 = 0x80;

pub const CMD_SET_PACKET_TYPE: u8 = 0x8A;

pub const CMD_SET_RF_FREQUENCY: u8 = 0x86;

pub const CMD_SET_TX_PARAMS: u8 = 0x8E;

pub const CMD_SET_MODULATION_PARAMS: u8 = 0x8B;

pub const CMD_SET_PACKET_PARAMS: u8 = 0x8C;

pub const CMD_SET_DIO_IRQ_PARAMS: u8 = 0x08;

pub const CMD_SET_RX: u8 = 0x82;

pub const CMD_SET_TX: u8 = 0x83;

pub const CMD_WRITE_BUFFER: u8 = 0x0E;

pub const CMD_READ_BUFFER: u8 = 0x1E;

pub const CMD_GET_IRQ_STATUS: u8 = 0x12;

pub const CMD_CLEAR_IRQ_STATUS: u8 = 0x02;

pub const CMD_GET_RX_BUFFER_STATUS: u8 = 0x13;

pub const PACKET_TYPE_LORA: u8 = 0x01;

pub const STANDBY_RC: u8 = 0x00;

pub const IRQ_TX_DONE: u8 = 0x01;

pub const IRQ_RX_DONE: u8 = 0x02;

/// Most looks at the busy line before a command goes out anyway.
pub const BUSY_LOOKS: u32 = 10_000;

/// Most looks at the interrupt status before a transmission counts as failed.
pub const TX_LOOKS: u32 = 100_000;

/// Most bytes of a payload to send.
pub const MAX_PAYLOAD: usize = 240;

/// One thing to do on the hardware.
#[derive(Debug, PartialEq, Eq)]
pub enum BusAction {
    /// Look at the busy line until it is low, as `wait_busy` says.
    WaitReady,
    /// Write these bytes to the bus.
    Write(Vec<u8>),
    /// Exchange these bytes in place on the bus.
    Transfer(Vec<u8>),
    /// Read this many bytes from the bus.
    Read(usize),
    /// Drive the reset line high or low.
    Reset(bool),
}

/// An action as a value.
pub enum BusActionView {
    WaitReady,
    Write(Seq<u8>),
    Transfer(Seq<u8>),
    Read(usize),
    Reset(bool),
}

impl View for BusAction {
    type V = BusActionView;

    open spec fn view(&self) -> BusActionView {
        match *self {
            BusAction::WaitReady => BusActionView::WaitReady,
            BusAction::Write(b) => BusActionView::Write(b@),
            BusAction::Transfer(b) => BusActionView::Transfer(b@),
            BusAction::Read(n) => BusActionView::Read(n),
            BusAction::Reset(high) => BusActionView::Reset(high),
        }
    }
}

/// A list of actions as values.
pub open spec fn views(v: Seq<BusAction>) -> Seq<BusActionView> {
    Seq::new(v.len(), |i: int| v[i]@)
}

/// A command, sent once the transceiver is ready.
pub open spec fn command(bytes: Seq<u8>) -> Seq<BusActionView> {
    seq![BusActionView::WaitReady, BusActionView::Write(bytes)]
}

/// A command that answers with two bytes.
pub open spec fn query(opcode: u8) -> Seq<BusActionView> {
    seq![
        BusActionView::WaitReady,
        BusActionView::Transfer(seq![opcode, 0x00u8]),
        BusActionView::Read(2),
    ]
}

/// Clears all interrupts.
pub open spec fn clear_irq() -> Seq<BusActionView> {
    command(seq![CMD_CLEAR_IRQ_STATUS, 0xFFu8, 0xFFu8])
}

/// The frequency in steps of 1/2^20 MHz, as the 32-bit register holds it.
pub open spec fn frequency_steps(freq_mhz: u32) -> u32 {
    ((freq_mhz * 0x10_0000) % 0x1_0000_0000) as u32
}

/// The value of the power parameter.
pub open spec fn power_byte(p: TxPower) -> u8 {
    p.in_dbm()
}

/// Everything that `configure` does.
pub open spec fn configure_plan(c: Config) -> Seq<BusActionView> {
    let f = frequency_steps(c.freq_mhz);
    seq![BusActionView::Reset(false), BusActionView::Reset(true)] + command(
        seq![CMD_SET_STANDBY, STANDBY_RC],
    ) + command(seq![CMD_SET_PACKET_TYPE, PACKET_TYPE_LORA]) + command(
        seq![
            CMD_SET_RF_FREQUENCY,
            (f / 0x100_0000) as u8,
            (f / 0x1_0000 % 256) as u8,
            (f / 256 % 256) as u8,
            (f % 256) as u8,
        ],
    ) + command(seq![CMD_SET_TX_PARAMS, power_byte(c.power), 0x04u8]) + command(
        seq![CMD_SET_MODULATION_PARAMS, 0x07u8, 0x04u8, 0x01u8, 0x00u8],
    ) + command(
        seq![CMD_SET_PACKET_PARAMS, 0x00u8, 0x08u8, 0x00u8, 0xFFu8, 0x01u8, 0x00u8],
    ) + command(
        seq![
            CMD_SET_DIO_IRQ_PARAMS,
            0x00u8,
            0x03u8,
            0x00u8,
            0x03u8,
            0x00u8,
            0x00u8,
            0x00u8,
            0x00u8,
        ],
    )
}

/// What `send` does up to the first look at the interrupt status. A payload
/// that is too long for the buffer is left out.
pub open spec fn send_plan(payload: Seq<u8>) -> Seq<BusActionView> {
    command(
        seq![CMD_WRITE_BUFFER, 0x00u8] + if payload.len() <= MAX_PAYLOAD {
            payload
        } else {
            Seq::empty()
        },
    ) + command(seq![CMD_SET_TX, 0x00u8, 0x00u8, 0x00u8]) + query(CMD_GET_IRQ_STATUS)
}

/// Appends a command.
fn push_command(v: &mut Vec<BusAction>, bytes: Vec<u8>)
    ensures
        views(final(v)@) == views(old(v)@) + command(bytes@),
{
    v.push(BusAction::WaitReady);
    v.push(BusAction::Write(bytes));
    assert(views(v@) =~= views(old(v)@) + command(bytes@));
}

/// Appends a query.
fn push_query(v: &mut Vec<BusAction>, opcode: u8)
    ensures
        views(final(v)@) == views(old(v)@) + query(opcode),
{
    let cmd = vec![opcode, 0x00u8];
    assert(cmd@ =~= seq![opcode, 0x00u8]);
    v.push(BusAction::WaitReady);
    v.push(BusAction::Transfer(cmd));
    v.push(BusAction::Read(2));
    assert(views(v@) =~= views(old(v)@) + query(opcode));
}

/// How a transmission goes on.
#[derive(Debug, PartialEq, Eq)]
pub enum TxStep {
    /// Do these, which read the interrupt status again.
    Look(Vec<BusAction>),
    /// Do these; the payload is sent.
    Done(Vec<BusAction>),
}

/// A transmission in progress.
#[derive(Debug, PartialEq, Eq)]
pub struct Transmission {
    /// Looks at the interrupt status so far.
    pub looks: u32,
}

/// The transceiver with the lines it is wired to.
pub struct Sx126xSpi<SPI, BUSY, RESET> {
    pub spi: SPI,
    pub busy: BUSY,
    pub reset: RESET,
    pub rssi_enabled: bool,
}

/// Whether to look at the busy line again, after `looks` looks the last of
/// which saw it low or not.
pub fn wait_busy(looks: u32, low: bool) -> (again: bool)
    ensures
        again == (!low && looks < BUSY_LOOKS),
{
    !low && looks < BUSY_LOOKS
}

impl<SPI, BUSY, RESET> Sx126xSpi<SPI, BUSY, RESET> {
    /// A transceiver that was not configured yet.
    pub fn new(spi: SPI, busy: BUSY, reset: RESET) -> (r: Self)
        ensures
            r.spi == spi && r.busy == busy && r.reset == reset && !r.rssi_enabled,
    {
        Sx126xSpi { spi, busy, reset, rssi_enabled: false }
    }

    /// The register value of a frequency.
    pub fn freq_to_register(freq_mhz: u32) -> (r: u32)
        ensures
            r == frequency_steps(freq_mhz),
    {
        (freq_mhz as u64 * 0x10_0000 % 0x1_0000_0000) as u32
    }

    /// The actions that send a command.
    pub fn send_command(&self, cmd: &[u8]) -> (r: Vec<BusAction>)
        ensures
            views(r@) == command(cmd@),
    {
        let mut v: Vec<BusAction> = Vec::new();
        let mut bytes: Vec<u8> = Vec::new();
        bytes.extend_from_slice(cmd);
        assert(bytes@ =~= cmd@);
        push_command(&mut v, bytes);
        assert(views(v@) =~= command(cmd@));
        v
    }

    /// Takes over a configuration and gives the actions that apply it.
    pub fn configure(&mut self, config: &Config) -> (r: Vec<BusAction>)
        ensures
            views(r@) == configure_plan(*config),
            *final(self) == (Sx126xSpi { rssi_enabled: config.rssi, ..*old(self) }),
    {
        self.rssi_enabled = config.rssi;
        let mut v: Vec<BusAction> = Vec::new();
        v.push(BusAction::Reset(false));
        v.push(BusAction::Reset(true));
        let ghost s0 = views(v@);
        assert(s0 =~= seq![BusActionView::Reset(false), BusActionView::Reset(true)]);
        let f: u32 = Self::freq_to_register(config.freq_mhz);
        let c0 = vec![CMD_SET_STANDBY, STANDBY_RC];
        let c1 = vec![CMD_SET_PACKET_TYPE, PACKET_TYPE_LORA];
        let c2 = vec![
            CMD_SET_RF_FREQUENCY,
            (f / 0x100_0000) as u8,
            (f / 0x1_0000 % 256) as u8,
            (f / 256 % 256) as u8,
            (f % 256) as u8,
        ];
        let c3 = vec![CMD_SET_TX_PARAMS, config.power.dbm(), 0x04u8];
        let c4 = vec![CMD_SET_MODULATION_PARAMS, 0x07u8, 0x04u8, 0x01u8, 0x00u8];
        let c5 = vec![CMD_SET_PACKET_PARAMS, 0x00u8, 0x08u8, 0x00u8, 0xFFu8, 0x01u8, 0x00u8];
        let c6 = vec![
            CMD_SET_DIO_IRQ_PARAMS,
            0x00u8,
            0x03u8,
            0x00u8,
            0x03u8,
            0x00u8,
            0x00u8,
            0x00u8,
            0x00u8,
        ];
        assert(c0@ =~= seq![CMD_SET_STANDBY, STANDBY_RC]);
        assert(c1@ =~= seq![CMD_SET_PACKET_TYPE, PACKET_TYPE_LORA]);
        assert(c2@ =~= seq![
            CMD_SET_RF_FREQUENCY,
            (f / 0x100_0000) as u8,
            (f / 0x1_0000 % 256) as u8,
            (f / 256 % 256) as u8,
            (f % 256) as u8,
        ]);
        assert(c3@ =~= seq![CMD_SET_TX_PARAMS, power_byte(config.power), 0x04u8]);
        assert(c4@ =~= seq![CMD_SET_MODULATION_PARAMS, 0x07u8, 0x04u8, 0x01u8, 0x00u8]);
        assert(c5@ =~= seq![CMD_SET_PACKET_PARAMS, 0x00u8, 0x08u8, 0x00u8, 0xFFu8, 0x01u8, 0x00u8]);
        assert(c6@ =~= seq![
            CMD_SET_DIO_IRQ_PARAMS,
            0x00u8,
            0x03u8,
            0x00u8,
            0x03u8,
            0x00u8,
            0x00u8,
            0x00u8,
            0x00u8,
        ]);
        push_command(&mut v, c0);
        push_command(&mut v, c1);
        push_command(&mut v, c2);
        push_command(&mut v, c3);
        push_command(&mut v, c4);
        push_command(&mut v, c5);
        push_command(&mut v, c6);
        v
    }

    /// Starts to send `payload`: gives the actions up to the first look at the
    /// interrupt status.
    pub fn send(&self, payload: &[u8]) -> (r: (Transmission, Vec<BusAction>))
        ensures
            r.0.looks == 0,
            views(r.1@) == send_plan(payload@),
    {
        let mut v: Vec<BusAction> = Vec::new();
        let mut buffer = vec![CMD_WRITE_BUFFER, 0x00u8];
        if payload.len() <= MAX_PAYLOAD {
            buffer.extend_from_slice(payload);
        }
        assert(buffer@ =~= seq![CMD_WRITE_BUFFER, 0x00u8] + if payload@.len() <= MAX_PAYLOAD {
            payload@
        } else {
            Seq::empty()
        });
        let start = vec![CMD_SET_TX, 0x00u8, 0x00u8, 0x00u8];
        assert(start@ =~= seq![CMD_SET_TX, 0x00u8, 0x00u8, 0x00u8]);
        push_command(&mut v, buffer);
        push_command(&mut v, start);
        push_query(&mut v, CMD_GET_IRQ_STATUS);
        assert(views(v@) =~= send_plan(payload@));
        (Transmission { looks: 0 }, v)
    }

    /// Starts to look for a packet: gives the actions that read the interrupt
    /// status.
    pub fn receive(&self) -> (r: Vec<BusAction>)
        ensures
            views(r@) == command(seq![CMD_SET_RX, 0x00u8, 0x00u8, 0x00u8]) + query(
                CMD_GET_IRQ_STATUS,
            ),
    {
        let mut v: Vec<BusAction> = Vec::new();
        let listen = vec![CMD_SET_RX, 0x00u8, 0x00u8, 0x00u8];
        assert(listen@ =~= seq![CMD_SET_RX, 0x00u8, 0x00u8, 0x00u8]);
        push_command(&mut v, listen);
        push_query(&mut v, CMD_GET_IRQ_STATUS);
        assert(views(v@) =~= command(seq![CMD_SET_RX, 0x00u8, 0x00u8, 0x00u8]) + query(
            CMD_GET_IRQ_STATUS,
        ));
        v
    }

    /// Judges the interrupt status: `None` where no packet came, else the
    /// actions that read where it lies.
    pub fn receive_status(&self, irq: [u8; 2]) -> (r: Option<Vec<BusAction>>)
        ensures
            r is Some <==> irq@[1] & IRQ_RX_DONE != 0,
            r matches Some(v) ==> views(v@) == clear_irq() + query(CMD_GET_RX_BUFFER_STATUS),
    {
        if irq[1] & IRQ_RX_DONE == 0 {
            return None;
        }
        let mut v: Vec<BusAction> = Vec::new();
        let clear = vec![CMD_CLEAR_IRQ_STATUS, 0xFFu8, 0xFFu8];
        assert(clear@ =~= seq![CMD_CLEAR_IRQ_STATUS, 0xFFu8, 0xFFu8]);
        push_command(&mut v, clear);
        push_query(&mut v, CMD_GET_RX_BUFFER_STATUS);
        assert(views(v@) =~= clear_irq() + query(CMD_GET_RX_BUFFER_STATUS));
        Some(v)
    }

    /// The actions that read the packet of the given length and offset; of a
    /// longer one than a payload can hold, the front.
    pub fn receive_buffer(&self, status: [u8; 2]) -> (r: Vec<BusAction>)
        ensures
            views(r@) == seq![
                BusActionView::Transfer(seq![CMD_READ_BUFFER, status@[1], 0x00u8]),
                BusActionView::Read(
                    if status@[0] > 240 {
                        240usize
                    } else {
                        status@[0] as usize
                    },
                ),
            ],
    {
        let n: usize = if status[0] > 240 {
            240
        } else {
            status[0] as usize
        };
        let cmd = vec![CMD_READ_BUFFER, status[1], 0x00u8];
        assert(cmd@ =~= seq![CMD_READ_BUFFER, status@[1], 0x00u8]);
        let mut v: Vec<BusAction> = Vec::new();
        v.push(BusAction::Transfer(cmd));
        v.push(BusAction::Read(n));
        assert(views(v@) =~= seq![BusActionView::Transfer(cmd@), BusActionView::Read(n)]);
        v
    }

    /// The packet whose bytes were read; neither its sender nor its signal
    /// strength is known.
    pub fn received(&self, bytes: &[u8]) -> (r: ReceivedPacket)
        requires
            bytes@.len() <= 240,
        ensures
            r@.src_addr == 0,
            r@.rssi is None,
            r@.payload == bytes@,
    {
        ReceivedPacket { src_addr: 0, rssi: None, payload: payload_from(bytes) }
    }
}

impl Transmission {
    /// Judges the interrupt status: the payload is sent, or one more look is
    /// due, or it took too many.
    pub fn step<E>(&mut self, irq: [u8; 2]) -> (r: Result<TxStep, Sx126xError<E>>)
        requires
            old(self).looks < TX_LOOKS,
        ensures
            r is Err <==> irq@[1] & IRQ_TX_DONE == 0 && old(self).looks + 1 == TX_LOOKS,
            r matches Err(e) ==> e is Timeout,
            r matches Ok(TxStep::Done(v)) ==> irq@[1] & IRQ_TX_DONE != 0 && views(v@)
                == clear_irq(),
            r matches Ok(TxStep::Look(v)) ==> irq@[1] & IRQ_TX_DONE == 0 && final(self).looks
                < TX_LOOKS && views(v@) == query(CMD_GET_IRQ_STATUS),
            final(self).looks == old(self).looks + 1,
    {
        self.looks = self.looks + 1;
        let mut v: Vec<BusAction> = Vec::new();
        if irq[1] & IRQ_TX_DONE != 0 {
            let clear = vec![CMD_CLEAR_IRQ_STATUS, 0xFFu8, 0xFFu8];
            assert(clear@ =~= seq![CMD_CLEAR_IRQ_STATUS, 0xFFu8, 0xFFu8]);
            push_command(&mut v, clear);
            assert(views(v@) =~= clear_irq());
            return Ok(TxStep::Done(v));
        }
        if self.looks == TX_LOOKS {
            return Err(Sx126xError::Timeout);
        }
        push_query(&mut v, CMD_GET_IRQ_STATUS);
        assert(views(v@) =~= query(CMD_GET_IRQ_STATUS));
        Ok(TxStep::Look(v))
    }
}

/// The last command of an opcode among actions, with its parameters.
pub open spec fn last_command(plan: Seq<BusActionView>, opcode: u8) -> Option<Seq<u8>>
    decreases plan.len(),
{
    if plan.len() == 0 {
        None
    } else {
        match plan.last() {
            BusActionView::Write(b) if b.len() > 0 && b[0] == opcode => Some(b),
            _ => last_command(plan.drop_last(), opcode),
        }
    }
}

/// A command that is not followed by another of its opcode is the last one.
proof fn lemma_last_command(plan: Seq<BusActionView>, opcode: u8, i: int, b: Seq<u8>)
    requires
        0 <= i < plan.len(),
        plan[i] == BusActionView::Write(b),
        b.len() > 0,
        b[0] == opcode,
        forall|j: int|
            i < j < plan.len() ==> !(#[trigger] plan[j] matches BusActionView::Write(c) && c.len()
                > 0 && c[0] == opcode),
    ensures
        last_command(plan, opcode) == Some(b),
    decreases plan.len(),
{
    if i < plan.len() - 1 {
        assert(!(plan[plan.len() - 1] matches BusActionView::Write(c) && c.len() > 0 && c[0]
            == opcode));
        assert forall|j: int| i < j < plan.drop_last().len() implies !(
        #[trigger] plan.drop_last()[j] matches BusActionView::Write(c) && c.len() > 0 && c[0]
            == opcode) by {
            assert(plan.drop_last()[j] == plan[j]);
        }
        lemma_last_command(plan.drop_last(), opcode, i, b);
    }
}

/// A configuration resets the transceiver, waits for it before every command,
/// selects LoRa, and sets the carrier and the power that were asked for: the
/// frequency in steps of a megahertz by 2^20, its most significant byte first,
/// and the power in dBm.
pub proof fn law_transceiver_is_as_configured(c: Config)
    requires
        c.freq_mhz < 4_096,
    ensures
        ({
            let p = configure_plan(c);
            &&& p[0] == BusActionView::Reset(false)
            &&& p[1] == BusActionView::Reset(true)
            &&& forall|i: int|
                0 <= i < p.len() && #[trigger] p[i] is Write ==> i > 1 && p[i - 1] is WaitReady
            &&& last_command(p, 0x80) == Some(seq![0x80u8, 0u8])
            &&& last_command(p, 0x8A) == Some(seq![0x8Au8, 1u8])
            &&& last_command(p, 0x86) matches Some(f)
            &&& f.len() == 5
            &&& f[1] * 0x100_0000 + f[2] * 0x1_0000 + f[3] * 256 + f[4] == c.freq_mhz * 1_048_576
            &&& last_command(p, 0x8E) matches Some(t)
            &&& t.len() == 3
            &&& t[1] == c.power.in_dbm()
            &&& last_command(p, 0x8B) is Some
            &&& last_command(p, 0x8C) is Some
            &&& last_command(p, 0x08) is Some
        }),
{
    let p = configure_plan(c);
    assert(p.len() == 16);
    lemma_last_command(p, 0x80, 3, p[3]->Write_0);
    lemma_last_command(p, 0x8A, 5, p[5]->Write_0);
    lemma_last_command(p, 0x86, 7, p[7]->Write_0);
    lemma_last_command(p, 0x8E, 9, p[9]->Write_0);
    lemma_last_command(p, 0x8B, 11, p[11]->Write_0);
    lemma_last_command(p, 0x8C, 13, p[13]->Write_0);
    lemma_last_command(p, 0x08, 15, p[15]->Write_0);
}

/// Sending writes the payload to the start of the buffer as it is, and then
/// starts the transmitter.
pub proof fn law_payload_is_transmitted(payload: Seq<u8>)
    requires
        payload.len() <= 240,
    ensures
        last_command(send_plan(payload), 0x0E) == Some(seq![0x0Eu8, 0u8] + payload),
        last_command(send_plan(payload), 0x83) == Some(seq![0x83u8, 0u8, 0u8, 0u8]),
        send_plan(payload)[1] is Write && send_plan(payload)[1]->Write_0[0] == 0x0E,
        send_plan(payload)[3] is Write && send_plan(payload)[3]->Write_0[0] == 0x83,
{
    let p = send_plan(payload);
    assert(p.len() == 7);
    lemma_last_command(p, 0x0E, 1, seq![0x0Eu8, 0u8] + payload);
    lemma_last_command(p, 0x83, 3, seq![0x83u8, 0u8, 0u8, 0u8]);
}

} // verus!
