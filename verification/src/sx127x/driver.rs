//! Sending and receiving as machines over bus actions.

use vstd::prelude::*;
use super::config::{Config, FRAME_MAX};
use super::packet::{payload_from, ReceivedPacket};
use super::spi::{
    read_fifo, read_register, set_mode, write_fifo, write_register, Completion, Reply, SpiAction,
    Wait, WaitFor, WaitStep, IRQ_CAD_DETECTED, IRQ_PAYLOAD_CRC_ERROR, IRQ_RX_DONE, MAX_PAYLOAD,
    MODE_CAD, MODE_MASK, MODE_RXCONTINUOUS, MODE_STDBY, MODE_TX, REG_FIFO, REG_FIFO_ADDR_PTR,
    REG_FIFO_RX_BASE_ADDR, REG_FIFO_RX_CURRENT_ADDR, REG_IRQ_FLAGS, REG_OP_MODE,
    REG_PAYLOAD_LENGTH, REG_PKT_RSSI_VALUE, REG_RX_NB_BYTES,
};
use super::spi::{ActionView, ReplyView, WaitStepView};
use super::{config, packet, spi, NoInputPin, NoWaiter, Sx127xError};

verus! {

/// The transceiver with the lines it is wired to. The blocking DIO0 line is
/// preferred where there is one, then the plain DIO0 level, then the interrupt
/// flags over the bus.
pub struct Sx127xSpi<SPI, RESET, DELAY, DIO0 = NoInputPin, W = NoWaiter> {
    pub spi: SPI,
    pub reset: RESET,
    pub delay: DELAY,
    pub dio0: Option<DIO0>,
    pub waiter: Option<W>,
    /// The address put in front of every payload.
    pub addr: u16,
    /// The configuration applied last, from which timeouts are computed.
    pub config: Config,
}

impl<SPI, RESET, DELAY> Sx127xSpi<SPI, RESET, DELAY, NoInputPin, NoWaiter> {
    /// A transceiver without a DIO0 line.
    pub fn new(spi: SPI, reset: RESET, delay: DELAY) -> (r: Self)
        ensures
            r.wf(),
            r.spi == spi && r.reset == reset && r.delay == delay,
            r.seen_by() == Completion::PollFlags,
            r.addr == 0,
            r.config == config::default_config(),
    {
        let config = Config::default();
        proof {
            config.lemma_timing_fits();
        }
        Sx127xSpi { spi, reset, delay, dio0: None, waiter: None, addr: 0, config }
    }
}

impl<SPI, RESET, DELAY, DIO0> Sx127xSpi<SPI, RESET, DELAY, DIO0, NoWaiter> {
    /// A transceiver whose DIO0 level can be read.
    pub fn new_with_dio0(spi: SPI, reset: RESET, delay: DELAY, dio0: DIO0) -> (r: Self)
        ensures
            r.wf(),
            r.spi == spi && r.reset == reset && r.delay == delay && r.dio0 == Some(dio0),
            r.seen_by() == Completion::PollDio0,
            r.addr == 0,
            r.config == config::default_config(),
    {
        let config = Config::default();
        proof {
            config.lemma_timing_fits();
        }
        Sx127xSpi { spi, reset, delay, dio0: Some(dio0), waiter: None, addr: 0, config }
    }
}

impl<SPI, RESET, DELAY, W> Sx127xSpi<SPI, RESET, DELAY, NoInputPin, W> {
    /// A transceiver whose DIO0 line can be blocked on.
    pub fn new_with_dio0_waiter(spi: SPI, reset: RESET, delay: DELAY, wait: W) -> (r: Self)
        ensures
            r.wf(),
            r.spi == spi && r.reset == reset && r.delay == delay && r.waiter == Some(wait),
            r.seen_by() == Completion::AwaitDio0,
            r.addr == 0,
            r.config == config::default_config(),
    {
        let config = Config::default();
        proof {
            config.lemma_timing_fits();
        }
        Sx127xSpi { spi, reset, delay, dio0: None, waiter: Some(wait), addr: 0, config }
    }
}

impl<SPI, RESET, DELAY, DIO0, W> Sx127xSpi<SPI, RESET, DELAY, DIO0, W> {
    /// The configuration applied last leaves room for all timing.
    pub open spec fn wf(self) -> bool {
        self.config.timing_fits()
    }

    /// How completions are seen.
    pub open spec fn seen_by(self) -> Completion {
        if self.waiter is Some {
            Completion::AwaitDio0
        } else if self.dio0 is Some {
            Completion::PollDio0
        } else {
            Completion::PollFlags
        }
    }

    /// How completions are seen.
    pub fn completion(&self) -> (r: Completion)
        ensures
            r == self.seen_by(),
    {
        if self.waiter.is_some() {
            Completion::AwaitDio0
        } else if self.dio0.is_some() {
            Completion::PollDio0
        } else {
            Completion::PollFlags
        }
    }

    /// Takes over a configuration and gives the actions that apply it.
    pub fn configure(&mut self, config: &Config) -> (r: Vec<SpiAction>)
        requires
            config.timing_fits(),
        ensures
            spi::views(r@) == spi::configure_plan(*config),
            final(self).wf(),
            final(self).config == *config,
            final(self).addr == config.addr,
            final(self).spi == old(self).spi,
            final(self).reset == old(self).reset,
            final(self).delay == old(self).delay,
            final(self).dio0 == old(self).dio0,
            final(self).waiter == old(self).waiter,
    {
        self.addr = config.addr;
        self.config = *config;
        spi::configure(config)
    }

    /// Starts to wait for a completion.
    pub fn wait_for(&self, event: WaitFor, timeout_us: u32) -> (r: (Wait, SpiAction))
        ensures
            r.0 == Wait::begun(event, self.seen_by(), timeout_us),
            r.0.valid(),
            r.1@ == r.0.due(),
    {
        Wait::begin(event, self.completion(), timeout_us)
    }

    /// Starts to send `payload`; the destination is not part of what is sent.
    /// A payload that is too large is refused before anything is done.
    pub fn send<E>(&self, dest: u16, payload: &[u8]) -> (r: Result<
        (SendOp, SpiAction),
        Sx127xError<E>,
    >)
        requires
            self.wf(),
        ensures
            payload@.len() > MAX_PAYLOAD ==> r == Err::<(SendOp, SpiAction), Sx127xError<E>>(
                Sx127xError::PayloadTooLarge { len: payload@.len() as usize, max: MAX_PAYLOAD },
            ),
            payload@.len() <= MAX_PAYLOAD ==> r is Ok,
            r matches Ok((op, action)) ==> {
                &&& op@ == (SendView {
                    config: self.config,
                    how: self.seen_by(),
                    frame: on_air(self.addr, payload@),
                    stage: SendStage::Standby,
                })
                &&& op.wf()
                &&& action@ == op@.due()
            },
    {
        if payload.len() > MAX_PAYLOAD {
            return Err(Sx127xError::PayloadTooLarge { len: payload.len(), max: MAX_PAYLOAD });
        }
        let mut frame: Vec<u8> = Vec::new();
        frame.push((self.addr / 256) as u8);
        frame.push((self.addr % 256) as u8);
        frame.extend_from_slice(payload);
        assert(frame@ =~= on_air(self.addr, payload@));
        let op = SendOp {
            config: self.config,
            how: self.completion(),
            frame,
            stage: SendStage::Standby,
        };
        Ok((op, set_mode(MODE_STDBY)))
    }

    /// Starts to look for a received packet.
    pub fn receive(&self) -> (r: (ReceiveOp, SpiAction))
        ensures
            r.0@ == ReceiveView::Mode,
            r.1@ == r.0@.due(),
    {
        (ReceiveOp { stage: ReceiveStage::Mode }, read_register(REG_OP_MODE))
    }
}

/// What goes on the air: the sender's address and the payload.
pub open spec fn on_air(addr: u16, payload: Seq<u8>) -> Seq<u8> {
    seq![(addr / 256) as u8, (addr % 256) as u8] + payload
}

/// Where sending stands; named after the action whose reply is due.
#[derive(Debug, Clone, Copy, PartialEq, Eq, Structural)]
pub enum SendStage {
    Standby,
    ClearBeforeCad,
    StartCad,
    AwaitCad(Wait),
    /// Clearing the flags after detection, which found activity or not.
    ClearAfterCad(bool),
    /// Back to standby because the channel is busy.
    Withdraw,
    SetPointer,
    SetLength,
    Fill,
    ClearBeforeTx,
    StartTx,
    AwaitTx(Wait),
    ClearAfterTx,
}

/// The state of sending.
pub struct SendView {
    pub config: Config,
    pub how: Completion,
    pub frame: Seq<u8>,
    pub stage: SendStage,
}

/// How sending goes on.
pub enum SendStep<E> {
    /// Do this next.
    More(SpiAction),
    /// It is over.
    Finished(Result<(), Sx127xError<E>>),
}

/// A step of sending as a value.
pub enum SendStepView<E> {
    More(ActionView),
    Finished(Result<(), Sx127xError<E>>),
}

impl<E> View for SendStep<E> {
    type V = SendStepView<E>;

    open spec fn view(&self) -> SendStepView<E> {
        match *self {
            SendStep::More(a) => SendStepView::More(a@),
            SendStep::Finished(r) => SendStepView::Finished(r),
        }
    }
}

impl SendView {
    /// The action whose reply is due.
    pub open spec fn due(self) -> ActionView {
        match self.stage {
            SendStage::Standby => spi::mode(MODE_STDBY),
            SendStage::ClearBeforeCad => spi::write(REG_IRQ_FLAGS, 0xFF),
            SendStage::StartCad => spi::mode(MODE_CAD),
            SendStage::AwaitCad(w) => w.due(),
            SendStage::ClearAfterCad(_) => spi::write(REG_IRQ_FLAGS, 0xFF),
            SendStage::Withdraw => spi::mode(MODE_STDBY),
            SendStage::SetPointer => spi::write(REG_FIFO_ADDR_PTR, 0x00),
            SendStage::SetLength => spi::write(REG_PAYLOAD_LENGTH, self.frame.len() as u8),
            SendStage::Fill => ActionView::Write(seq![REG_FIFO | 0x80] + self.frame),
            SendStage::ClearBeforeTx => spi::write(REG_IRQ_FLAGS, 0xFF),
            SendStage::StartTx => spi::mode(MODE_TX),
            SendStage::AwaitTx(w) => w.due(),
            SendStage::ClearAfterTx => spi::write(REG_IRQ_FLAGS, 0xFF),
        }
    }

    /// Sending in another stage, and the action that belongs to it.
    pub open spec fn at<E>(self, stage: SendStage) -> (SendView, SendStepView<E>) {
        let v = SendView { stage, ..self };
        (v, SendStepView::More(v.due()))
    }

    /// How sending goes on after a reply.
    pub open spec fn next<E>(self, reply: ReplyView) -> (SendView, SendStepView<E>) {
        match self.stage {
            SendStage::Standby => self.at(SendStage::ClearBeforeCad),
            SendStage::ClearBeforeCad => self.at(SendStage::StartCad),
            SendStage::StartCad => self.at(
                SendStage::AwaitCad(
                    Wait::begun(
                        WaitFor::CadDone,
                        self.how,
                        config::clamped(self.config.symbol_us() * 3, 0, u32::MAX as int) as u32,
                    ),
                ),
            ),
            SendStage::AwaitCad(w) => match w.next(reply) {
                WaitStepView::More(x, _) => self.at(SendStage::AwaitCad(x)),
                WaitStepView::Ready(irq) => self.at(
                    SendStage::ClearAfterCad(irq & IRQ_CAD_DETECTED != 0),
                ),
                WaitStepView::TimedOut(kind) => (
                    self,
                    SendStepView::Finished(Err(Sx127xError::Timeout(kind))),
                ),
            },
            SendStage::ClearAfterCad(busy) => if busy {
                self.at(SendStage::Withdraw)
            } else {
                self.at(SendStage::SetPointer)
            },
            SendStage::Withdraw => (self, SendStepView::Finished(Err(Sx127xError::ChannelBusy))),
            SendStage::SetPointer => self.at(SendStage::SetLength),
            SendStage::SetLength => self.at(SendStage::Fill),
            SendStage::Fill => self.at(SendStage::ClearBeforeTx),
            SendStage::ClearBeforeTx => self.at(SendStage::StartTx),
            SendStage::StartTx => self.at(
                SendStage::AwaitTx(
                    Wait::begun(
                        WaitFor::TxDone,
                        self.how,
                        config::clamped(
                            self.config.airtime_us(self.frame.len() as int) * 2,
                            0,
                            u32::MAX as int,
                        ) as u32,
                    ),
                ),
            ),
            SendStage::AwaitTx(w) => match w.next(reply) {
                WaitStepView::More(x, _) => self.at(SendStage::AwaitTx(x)),
                WaitStepView::Ready(_) => self.at(SendStage::ClearAfterTx),
                WaitStepView::TimedOut(kind) => (
                    self,
                    SendStepView::Finished(Err(Sx127xError::Timeout(kind))),
                ),
            },
            SendStage::ClearAfterTx => (self, SendStepView::Finished(Ok(()))),
        }
    }
}

/// A payload on its way out.
pub struct SendOp {
    config: Config,
    how: Completion,
    frame: Vec<u8>,
    stage: SendStage,
}

impl View for SendOp {
    type V = SendView;

    closed spec fn view(&self) -> SendView {
        SendView {
            config: self.config,
            how: self.how,
            frame: self.frame@,
            stage: self.stage,
        }
    }
}

impl SendOp {
    /// The frame fits, its timing fits, and a running wait is a valid one.
    pub open spec fn wf(self) -> bool {
        &&& self@.config.timing_fits()
        &&& self@.frame.len() <= FRAME_MAX
        &&& self@.stage matches SendStage::AwaitCad(w) ==> w.valid()
        &&& self@.stage matches SendStage::AwaitTx(w) ==> w.valid()
    }

    /// Goes to another stage.
    fn go<E>(&mut self, stage: SendStage, action: SpiAction) -> (r: SendStep<E>)
        ensures
            final(self)@ == (SendView { stage, ..old(self)@ }),
            r == SendStep::<E>::More(action),
    {
        self.stage = stage;
        SendStep::More(action)
    }

    /// Takes the reply to the action that was due.
    pub fn step<E>(&mut self, reply: &Reply) -> (r: SendStep<E>)
        requires
            old(self).wf(),
            spi::answers(old(self)@.due(), reply@),
        ensures
            final(self).wf(),
            (final(self)@, r@) == old(self)@.next::<E>(reply@),
    {
        match self.stage {
            SendStage::Standby => {
                self.go(SendStage::ClearBeforeCad, write_register(REG_IRQ_FLAGS, 0xFF))
            },
            SendStage::ClearBeforeCad => self.go(SendStage::StartCad, set_mode(MODE_CAD)),
            SendStage::StartCad => {
                let (w, action) = Wait::begin(
                    WaitFor::CadDone,
                    self.how,
                    self.config.cad_timeout_us(),
                );
                self.go(SendStage::AwaitCad(w), action)
            },
            SendStage::AwaitCad(w) => match w.step(reply) {
                WaitStep::More(x, action) => self.go(SendStage::AwaitCad(x), action),
                WaitStep::Ready(irq) => self.go(
                    SendStage::ClearAfterCad(irq & IRQ_CAD_DETECTED != 0),
                    write_register(REG_IRQ_FLAGS, 0xFF),
                ),
                WaitStep::TimedOut(kind) => SendStep::Finished(Err(Sx127xError::Timeout(kind))),
            },
            SendStage::ClearAfterCad(busy) => if busy {
                self.go(SendStage::Withdraw, set_mode(MODE_STDBY))
            } else {
                self.go(SendStage::SetPointer, write_register(REG_FIFO_ADDR_PTR, 0x00))
            },
            SendStage::Withdraw => SendStep::Finished(Err(Sx127xError::ChannelBusy)),
            SendStage::SetPointer => {
                let action = write_register(REG_PAYLOAD_LENGTH, self.frame.len() as u8);
                self.go(SendStage::SetLength, action)
            },
            SendStage::SetLength => {
                let action = write_fifo(self.frame.as_slice());
                self.go(SendStage::Fill, action)
            },
            SendStage::Fill => {
                self.go(SendStage::ClearBeforeTx, write_register(REG_IRQ_FLAGS, 0xFF))
            },
            SendStage::ClearBeforeTx => self.go(SendStage::StartTx, set_mode(MODE_TX)),
            SendStage::StartTx => {
                proof {
                    config::law_airtime_grows_with_length(
                        self.config,
                        self.frame@.len() as int,
                        FRAME_MAX as int,
                    );
                }
                let (w, action) = Wait::begin(
                    WaitFor::TxDone,
                    self.how,
                    self.config.tx_timeout_us(self.frame.len()),
                );
                self.go(SendStage::AwaitTx(w), action)
            },
            SendStage::AwaitTx(w) => match w.step(reply) {
                WaitStep::More(x, action) => self.go(SendStage::AwaitTx(x), action),
                WaitStep::Ready(_) => self.go(
                    SendStage::ClearAfterTx,
                    write_register(REG_IRQ_FLAGS, 0xFF),
                ),
                WaitStep::TimedOut(kind) => SendStep::Finished(Err(Sx127xError::Timeout(kind))),
            },
            SendStage::ClearAfterTx => SendStep::Finished(Ok(())),
        }
    }
}

/// Where receiving stands; named after the action whose reply is due.
#[derive(Debug)]
pub enum ReceiveStage {
    Mode,
    SetBase,
    Listen,
    Flags,
    Clear(bool),
    Count,
    Current(u8),
    SetPointer(u8, u8),
    Fifo(u8),
    Rssi(Vec<u8>),
}

/// The state of receiving.
pub enum ReceiveView {
    /// Reading the mode: is the modem listening at all?
    Mode,
    /// Setting where packets begin in the FIFO.
    SetBase,
    /// Starting to listen.
    Listen,
    /// Reading the interrupt flags: has a packet come?
    Flags,
    /// Clearing the flags of a packet that came damaged or not.
    Clear(bool),
    /// Reading how many bytes came.
    Count,
    /// Reading where a packet of this many bytes begins.
    Current(u8),
    /// Setting the FIFO pointer to the second number, to read as many bytes
    /// as the first says.
    SetPointer(u8, u8),
    /// Reading this many bytes.
    Fifo(u8),
    /// Reading the signal strength of these bytes.
    Rssi(Seq<u8>),
}

/// How receiving goes on.
pub enum ReceiveStep {
    /// Do this next.
    More(SpiAction),
    /// It is over, with or without a packet.
    Finished(Option<ReceivedPacket>),
}

/// A step of receiving as a value.
pub enum ReceiveStepView {
    More(ActionView),
    Finished(Option<packet::PacketView>),
}

impl View for ReceiveStep {
    type V = ReceiveStepView;

    open spec fn view(&self) -> ReceiveStepView {
        match *self {
            ReceiveStep::More(a) => ReceiveStepView::More(a@),
            ReceiveStep::Finished(p) => ReceiveStepView::Finished(packet::opt_packet(p)),
        }
    }
}

/// At most `packet::PAYLOAD_MAX` bytes are read.
pub open spec fn to_read(count: u8) -> u8 {
    if count > 240 {
        240
    } else {
        count
    }
}

/// The packet in the bytes read from the FIFO, with the raw signal strength.
pub open spec fn packet_of(raw: Seq<u8>, rssi: u8) -> packet::PacketView {
    packet::PacketView {
        src_addr: (raw[0] * 256 + raw[1]) as u16,
        rssi: Some((rssi - 164) as i16),
        payload: raw.skip(2),
    }
}

impl ReceiveView {
    /// The action whose reply is due.
    pub open spec fn due(self) -> ActionView {
        match self {
            ReceiveView::Mode => spi::read(REG_OP_MODE),
            ReceiveView::SetBase => spi::write(REG_FIFO_RX_BASE_ADDR, 0x00),
            ReceiveView::Listen => spi::mode(MODE_RXCONTINUOUS),
            ReceiveView::Flags => spi::read(REG_IRQ_FLAGS),
            ReceiveView::Clear(_) => spi::write(REG_IRQ_FLAGS, 0xFF),
            ReceiveView::Count => spi::read(REG_RX_NB_BYTES),
            ReceiveView::Current(_) => spi::read(REG_FIFO_RX_CURRENT_ADDR),
            ReceiveView::SetPointer(_, cur) => spi::write(REG_FIFO_ADDR_PTR, cur),
            ReceiveView::Fifo(n) => ActionView::Transfer(
                seq![REG_FIFO & 0x7F] + Seq::new(n as nat, |i: int| 0u8),
            ),
            ReceiveView::Rssi(_) => spi::read(REG_PKT_RSSI_VALUE),
        }
    }

    /// The bytes held between two stages are within bounds.
    pub open spec fn valid(self) -> bool {
        match self {
            ReceiveView::Current(n) => n <= 240,
            ReceiveView::SetPointer(n, _) => n <= 240,
            ReceiveView::Fifo(n) => n <= 240,
            ReceiveView::Rssi(raw) => 2 <= raw.len() <= 240,
            _ => true,
        }
    }

    /// Receiving in another stage, and the action that belongs to it.
    pub open spec fn at(self) -> (ReceiveView, ReceiveStepView) {
        (self, ReceiveStepView::More(self.due()))
    }

    /// Receiving is over without a packet.
    pub open spec fn nothing(self) -> (ReceiveView, ReceiveStepView) {
        (self, ReceiveStepView::Finished(None))
    }

    /// How receiving goes on after a reply.
    pub open spec fn next(self, reply: ReplyView) -> (ReceiveView, ReceiveStepView) {
        let b = match reply {
            ReplyView::Transferred(b) => b,
            _ => Seq::empty(),
        };
        match self {
            ReceiveView::Mode => if b[1] & MODE_MASK != MODE_RXCONTINUOUS {
                ReceiveView::SetBase.at()
            } else {
                ReceiveView::Flags.at()
            },
            ReceiveView::SetBase => ReceiveView::Listen.at(),
            ReceiveView::Listen => self.nothing(),
            ReceiveView::Flags => if b[1] & IRQ_RX_DONE == 0 {
                self.nothing()
            } else {
                ReceiveView::Clear(b[1] & IRQ_PAYLOAD_CRC_ERROR != 0).at()
            },
            ReceiveView::Clear(damaged) => if damaged {
                self.nothing()
            } else {
                ReceiveView::Count.at()
            },
            ReceiveView::Count => ReceiveView::Current(to_read(b[1])).at(),
            ReceiveView::Current(n) => ReceiveView::SetPointer(n, b[1]).at(),
            ReceiveView::SetPointer(n, _) => ReceiveView::Fifo(n).at(),
            ReceiveView::Fifo(n) => if n < 2 {
                self.nothing()
            } else {
                ReceiveView::Rssi(b.skip(1)).at()
            },
            ReceiveView::Rssi(raw) => (
                self,
                ReceiveStepView::Finished(Some(packet_of(raw, b[1]))),
            ),
        }
    }
}

/// A look for a received packet.
pub struct ReceiveOp {
    stage: ReceiveStage,
}

impl View for ReceiveOp {
    type V = ReceiveView;

    closed spec fn view(&self) -> ReceiveView {
        match self.stage {
            ReceiveStage::Mode => ReceiveView::Mode,
            ReceiveStage::SetBase => ReceiveView::SetBase,
            ReceiveStage::Listen => ReceiveView::Listen,
            ReceiveStage::Flags => ReceiveView::Flags,
            ReceiveStage::Clear(damaged) => ReceiveView::Clear(damaged),
            ReceiveStage::Count => ReceiveView::Count,
            ReceiveStage::Current(n) => ReceiveView::Current(n),
            ReceiveStage::SetPointer(n, cur) => ReceiveView::SetPointer(n, cur),
            ReceiveStage::Fifo(n) => ReceiveView::Fifo(n),
            ReceiveStage::Rssi(raw) => ReceiveView::Rssi(raw@),
        }
    }
}

/// The value of a register that was read.
pub fn register(reply: &Reply) -> (r: u8)
    requires
        reply@ matches ReplyView::Transferred(b) && b.len() == 2,
    ensures
        reply@ matches ReplyView::Transferred(b) && b[1] == r,
{
    match reply {
        Reply::Transferred(b) => b[1],
        _ => 0,
    }
}

/// The bytes of the FIFO that were read: what came behind the address.
pub fn fifo(reply: &Reply) -> (r: Vec<u8>)
    requires
        reply@ matches ReplyView::Transferred(b) && b.len() >= 1,
    ensures
        reply@ matches ReplyView::Transferred(b) && r@ == b.skip(1),
{
    let mut raw: Vec<u8> = Vec::new();
    if let Reply::Transferred(b) = reply {
        raw.extend_from_slice(vstd::slice::slice_subrange(b.as_slice(), 1, b.len()));
        assert(raw@ =~= b@.skip(1));
    }
    raw
}

impl ReceiveOp {
    /// Goes to another stage.
    fn go(&mut self, stage: ReceiveStage, action: SpiAction) -> (r: ReceiveStep)
        ensures
            *final(self) == (ReceiveOp { stage }),
            r == ReceiveStep::More(action),
    {
        self.stage = stage;
        ReceiveStep::More(action)
    }

    /// Takes the reply to the action that was due.
    pub fn step(&mut self, reply: &Reply) -> (r: ReceiveStep)
        requires
            old(self)@.valid(),
            spi::answers(old(self)@.due(), reply@),
        ensures
            final(self)@.valid(),
            (final(self)@, r@) == old(self)@.next(reply@),
    {
        match &self.stage {
            ReceiveStage::Mode => {
                let v: u8 = register(reply);
                if v & MODE_MASK != MODE_RXCONTINUOUS {
                    self.go(ReceiveStage::SetBase, write_register(REG_FIFO_RX_BASE_ADDR, 0x00))
                } else {
                    self.go(ReceiveStage::Flags, read_register(REG_IRQ_FLAGS))
                }
            },
            ReceiveStage::SetBase => self.go(ReceiveStage::Listen, set_mode(MODE_RXCONTINUOUS)),
            ReceiveStage::Listen => ReceiveStep::Finished(None),
            ReceiveStage::Flags => {
                let irq: u8 = register(reply);
                if irq & IRQ_RX_DONE == 0 {
                    ReceiveStep::Finished(None)
                } else {
                    self.go(
                        ReceiveStage::Clear(irq & IRQ_PAYLOAD_CRC_ERROR != 0),
                        write_register(REG_IRQ_FLAGS, 0xFF),
                    )
                }
            },
            ReceiveStage::Clear(damaged) => if *damaged {
                ReceiveStep::Finished(None)
            } else {
                self.go(ReceiveStage::Count, read_register(REG_RX_NB_BYTES))
            },
            ReceiveStage::Count => {
                let count: u8 = register(reply);
                let n: u8 = if count > 240 {
                    240
                } else {
                    count
                };
                self.go(ReceiveStage::Current(n), read_register(REG_FIFO_RX_CURRENT_ADDR))
            },
            ReceiveStage::Current(n) => {
                let n: u8 = *n;
                let cur: u8 = register(reply);
                self.go(ReceiveStage::SetPointer(n, cur), write_register(REG_FIFO_ADDR_PTR, cur))
            },
            ReceiveStage::SetPointer(n, _) => {
                let n: u8 = *n;
                self.go(ReceiveStage::Fifo(n), read_fifo(n as usize))
            },
            ReceiveStage::Fifo(n) => {
                if *n < 2 {
                    return ReceiveStep::Finished(None);
                }
                self.go(ReceiveStage::Rssi(fifo(reply)), read_register(REG_PKT_RSSI_VALUE))
            },
            ReceiveStage::Rssi(raw) => {
                let rssi: i16 = register(reply) as i16 - 164;
                let src_addr: u16 = raw[0] as u16 * 256 + raw[1] as u16;
                let body = vstd::slice::slice_subrange(raw.as_slice(), 2, raw.len());
                assert(body@ =~= raw@.skip(2));
                let payload = payload_from(body);
                ReceiveStep::Finished(Some(ReceivedPacket { src_addr, rssi: Some(rssi), payload }))
            },
        }
    }
}

/// Sending taken through a list of replies: every action it asks for on the
/// way, as long as it goes on.
pub open spec fn sent_actions(v: SendView, replies: Seq<ReplyView>) -> Seq<ActionView>
    decreases replies.len(),
{
    if replies.len() == 0 {
        Seq::empty()
    } else {
        match v.next::<()>(replies[0]) {
            (w, SendStepView::More(a)) => seq![a] + sent_actions(w, replies.skip(1)),
            (_, SendStepView::Finished(_)) => Seq::empty(),
        }
    }
}

/// Once activity was detected, nothing is transmitted: whatever the hardware
/// answers, all that still happens is the return to standby, and the outcome is
/// that the channel is busy.
pub proof fn law_busy_channel_is_left_alone(v: SendView, replies: Seq<ReplyView>)
    requires
        v.stage == SendStage::ClearAfterCad(true),
        replies.len() >= 2,
    ensures
        sent_actions(v, replies) == seq![spi::mode(MODE_STDBY)],
        ({
            let w = v.next::<()>(replies[0]).0;
            w.next::<()>(replies[1]).1 == SendStepView::<()>::Finished(
                Err(Sx127xError::ChannelBusy),
            )
        }),
{
    let w = v.next::<()>(replies[0]).0;
    assert(replies.skip(1)[0] == replies[1]);
    assert(sent_actions(w, replies.skip(1)) =~= Seq::<ActionView>::empty());
    assert(sent_actions(v, replies) =~= seq![spi::mode(MODE_STDBY)]);
}

/// The transmitter is keyed only when channel activity detection finished
/// without activity: the step that leads to the first FIFO access comes from
/// there, and every later stage follows it.
pub proof fn law_transmits_only_on_a_clear_channel(v: SendView, reply: ReplyView)
    ensures
        ({
            let w = v.next::<()>(reply).0;
            &&& w.stage == SendStage::SetPointer && v.stage != w.stage ==> v.stage
                == SendStage::ClearAfterCad(false)
            &&& w.stage == SendStage::SetLength && v.stage != w.stage ==> v.stage
                == SendStage::SetPointer
            &&& w.stage == SendStage::Fill && v.stage != w.stage ==> v.stage
                == SendStage::SetLength
            &&& w.stage == SendStage::ClearBeforeTx && v.stage != w.stage ==> v.stage
                == SendStage::Fill
            &&& w.stage == SendStage::StartTx && v.stage != w.stage ==> v.stage
                == SendStage::ClearBeforeTx
        }),
{
}

/// A wait that sees nothing gives up: after `2 n` more replies, `n` looks and
/// the pause behind each, it reports which completion never came.
pub proof fn law_wait_gives_up(w: Wait, n: u32, looks: Seq<ReplyView>)
    requires
        w.valid(),
        w.stage == spi::WaitStage::Watch(n),
        looks.len() == n,
        forall|i: int|
            0 <= i < n ==> spi::answers(w.due(), #[trigger] looks[i]) && match looks[i] {
                ReplyView::Level(high) => !high,
                ReplyView::Transferred(b) => b[1] & w.event.flag() == 0,
                ReplyView::Done => true,
            },
    ensures
        waited(w, looks) == WaitStepView::TimedOut(w.event.kind()),
    decreases n,
{
    let paused = Wait { stage: spi::WaitStage::Pause((n - 1) as u32), ..w };
    assert(w.next(looks[0]) == WaitStepView::More(paused, paused.due()));
    if n > 1 {
        let watching = Wait { stage: spi::WaitStage::Watch((n - 1) as u32), ..w };
        assert(paused.next(ReplyView::Done) == WaitStepView::More(watching, watching.due()));
        let rest = looks.skip(1);
        assert forall|i: int| 0 <= i < n - 1 implies spi::answers(
            watching.due(),
            #[trigger] rest[i],
        ) && match rest[i] {
            ReplyView::Level(high) => !high,
            ReplyView::Transferred(b) => b[1] & w.event.flag() == 0,
            ReplyView::Done => true,
        } by {
            assert(rest[i] == looks[i + 1]);
        }
        law_wait_gives_up(watching, (n - 1) as u32, rest);
    }
}

/// A wait taken through a list of looks, with a pause behind each.
pub open spec fn waited(w: Wait, looks: Seq<ReplyView>) -> WaitStepView
    decreases looks.len(),
{
    if looks.len() == 0 {
        WaitStepView::More(w, w.due())
    } else {
        match w.next(looks[0]) {
            WaitStepView::More(paused, _) => match paused.next(ReplyView::Done) {
                WaitStepView::More(x, _) => waited(x, looks.skip(1)),
                end => end,
            },
            end => end,
        }
    }
}

/// What one node sends another receives: its address and the payload. The
/// receiver reads at most 240 bytes, so this holds of payloads of up to 238.
pub proof fn law_sent_is_received(addr: u16, payload: Seq<u8>, rssi: u8)
    requires
        payload.len() <= 238,
    ensures
        on_air(addr, payload).len() <= 240,
        packet_of(on_air(addr, payload), rssi).src_addr == addr,
        packet_of(on_air(addr, payload), rssi).payload == payload,
        to_read(on_air(addr, payload).len() as u8) == on_air(addr, payload).len(),
{
    assert(on_air(addr, payload).skip(2) =~= payload);
}

/// What goes on the air begins with the sender's address, its high byte first.
pub proof fn law_address_leads(addr: u16, payload: Seq<u8>)
    ensures
        on_air(addr, payload).len() == payload.len() + 2,
        on_air(addr, payload)[0] * 256 + on_air(addr, payload)[1] == addr,
        on_air(addr, payload).skip(2) == payload,
{
    assert(on_air(addr, payload).skip(2) =~= payload);
}

/// Sending begins in standby, with all flags cleared, and listens for activity
/// on the channel before anything else: the mode register is left in channel
/// activity detection.
pub proof fn law_sending_listens_first(v: SendView, replies: Seq<ReplyView>)
    requires
        v.stage == SendStage::Standby,
        replies.len() == 2,
    ensures
        spi::register_written(v.due()) == Some((0x01int, 0x81u8)),
        spi::left_in(sent_actions(v, replies), 0x12) == Some(0xFFu8),
        spi::left_in(sent_actions(v, replies), 0x01) == Some(0x87u8),
        sent_actions(v, replies).len() == 2,
{
    reveal_with_fuel(sent_actions, 3);
    reveal_with_fuel(spi::left_in, 3);
    assert((0x80u8 | 1u8) == 0x81 && (0x80u8 | 7u8) == 0x87 && (0x01u8 | 0x80u8) == 0x81 && (0x12u8
        | 0x80u8) == 0x92) by (bit_vector);
    let w = v.next::<()>(replies[0]).0;
    let x = w.next::<()>(replies.skip(1)[0]).0;
    assert(replies.skip(1).skip(1).len() == 0);
    assert(sent_actions(v, replies) =~= seq![w.due(), x.due()]);
    let a = sent_actions(v, replies);
    assert(a.last() == x.due());
    assert(a.drop_last() =~= seq![w.due()]);
    assert(a.drop_last().last() == w.due());
}

/// One look at the flags ends the detection when the third bit is set: with the
/// first bit, the channel is busy and nothing is sent; without it, the frame is
/// sent. Sending ends when the fourth bit is set.
pub proof fn law_flags_decide(v: SendView, w: Wait, b: Seq<u8>, n: u32)
    requires
        w.how == Completion::PollFlags,
        w.stage == spi::WaitStage::Watch(n),
        n > 0,
        b.len() == 2,
    ensures
        v.stage == SendStage::AwaitCad(w) && w.event == WaitFor::CadDone ==> {
            let next = v.next::<()>(ReplyView::Transferred(b)).0.stage;
            &&& b[1] & 4 == 0 <==> next is AwaitCad
            &&& b[1] & 4 != 0 && b[1] & 1 != 0 ==> next == SendStage::ClearAfterCad(true)
            &&& b[1] & 4 != 0 && b[1] & 1 == 0 ==> next == SendStage::ClearAfterCad(false)
        },
        v.stage == SendStage::AwaitTx(w) && w.event == WaitFor::TxDone ==> {
            let next = v.next::<()>(ReplyView::Transferred(b)).0.stage;
            &&& b[1] & 8 == 0 <==> next is AwaitTx
            &&& b[1] & 8 != 0 <==> next == SendStage::ClearAfterTx
        },
{
}

/// On a clear channel the transmitter gets the frame as it is: the FIFO is filled
/// from its start with the bytes of the frame, the length register holds their
/// number, the flags are cleared, and only then the transmitter is keyed.
pub proof fn law_frame_is_transmitted(v: SendView, replies: Seq<ReplyView>)
    requires
        v.stage == SendStage::ClearAfterCad(false),
        v.frame.len() <= 242,
        replies.len() == 5,
    ensures
        ({
            let a = sent_actions(v, replies);
            &&& a.len() == 5
            &&& spi::register_written(a[0]) == Some((0x0Dint, 0u8))
            &&& spi::register_written(a[1]) == Some((0x22int, v.frame.len() as u8))
            &&& a[2] == ActionView::Write(seq![0x80u8] + v.frame)
            &&& spi::register_written(a[3]) == Some((0x12int, 0xFFu8))
            &&& spi::register_written(a[4]) == Some((0x01int, 0x83u8))
        }),
{
    reveal_with_fuel(sent_actions, 6);
    assert((0x80u8 | 3u8) == 0x83 && (0x01u8 | 0x80u8) == 0x81 && (0x12u8 | 0x80u8) == 0x92 && (
    0x0Du8 | 0x80u8) == 0x8D && (0x22u8 | 0x80u8) == 0xA2 && (0x00u8 | 0x80u8) == 0x80)
        by (bit_vector);
    let a = sent_actions(v, replies);
    let w1 = v.next::<()>(replies[0]).0;
    let w2 = w1.next::<()>(replies.skip(1)[0]).0;
    let w3 = w2.next::<()>(replies.skip(1).skip(1)[0]).0;
    let w4 = w3.next::<()>(replies.skip(1).skip(1).skip(1)[0]).0;
    let w5 = w4.next::<()>(replies.skip(1).skip(1).skip(1).skip(1)[0]).0;
    assert(a =~= seq![w1.due(), w2.due(), w3.due(), w4.due(), w5.due()]);
}

/// Once the transmitter is keyed, its completion is awaited for twice the time on
/// air of the frame, or as long as can be; activity on the channel is awaited for
/// three symbols.
pub proof fn law_waits_outlast_what_they_await(v: SendView, reply: ReplyView)
    requires
        v.config.airtime_us(v.frame.len() as int) >= 0,
        v.config.symbol_us() >= 0,
    ensures
        v.stage == SendStage::StartTx ==> (v.next::<()>(reply).0.stage matches SendStage::AwaitTx(w)
            && w.event == WaitFor::TxDone && w.how == v.how && (w.timeout_us == u32::MAX
            || w.timeout_us == 2 * v.config.airtime_us(v.frame.len() as int))),
        v.stage == SendStage::StartCad ==> (v.next::<()>(reply).0.stage matches SendStage::AwaitCad(
            w,
        ) && w.event == WaitFor::CadDone && w.how == v.how && (w.timeout_us == u32::MAX
            || w.timeout_us == 3 * v.config.symbol_us())),
{
}

/// Receiving taken through a list of replies: every action it asks for on the
/// way, and what it ends in, where it ends.
pub open spec fn looked(v: ReceiveView, replies: Seq<ReplyView>) -> (
    Seq<ActionView>,
    Option<Option<packet::PacketView>>,
)
    decreases replies.len(),
{
    if replies.len() == 0 {
        (Seq::empty(), None)
    } else {
        match v.next(replies[0]) {
            (w, ReceiveStepView::More(a)) => {
                let (rest, end) = looked(w, replies.skip(1));
                (seq![a] + rest, end)
            },
            (_, ReceiveStepView::Finished(p)) => (Seq::empty(), Some(p)),
        }
    }
}

/// A transceiver that does not listen is made to: packets begin at the start of
/// the FIFO, and the mode is continuous reception.
pub proof fn law_receiving_begins_to_listen(m: Seq<u8>)
    requires
        m.len() == 2,
        m[1] & 7 != 5,
    ensures
        ({
            let (a, end) = looked(
                ReceiveView::Mode,
                seq![ReplyView::Transferred(m), ReplyView::Done, ReplyView::Done],
            );
            &&& a.len() == 2
            &&& spi::register_written(a[0]) == Some((0x0Fint, 0u8))
            &&& spi::register_written(a[1]) == Some((0x01int, 0x85u8))
            &&& end == Some(None::<packet::PacketView>)
        }),
{
    reveal_with_fuel(looked, 4);
    assert((0x80u8 | 5u8) == 0x85 && (0x01u8 | 0x80u8) == 0x81 && (0x0Fu8 | 0x80u8) == 0x8F)
        by (bit_vector);
    let r = seq![ReplyView::Transferred(m), ReplyView::Done, ReplyView::Done];
    assert(r.skip(1).skip(1)[0] == ReplyView::Done);
    let (a, end) = looked(ReceiveView::Mode, r);
    assert(a =~= seq![ReceiveView::SetBase.due(), ReceiveView::Listen.due()]);
}

/// Nothing is given where no packet came, and a damaged packet is dropped, with
/// its flags cleared.
pub proof fn law_damaged_packet_is_dropped(m: Seq<u8>, f: Seq<u8>)
    requires
        m.len() == 2,
        m[1] & 7 == 5,
        f.len() == 2,
    ensures
        f[1] & 0x40 == 0 ==> looked(
            ReceiveView::Mode,
            seq![ReplyView::Transferred(m), ReplyView::Transferred(f)],
        ).1 == Some(None::<packet::PacketView>),
        f[1] & 0x40 != 0 && f[1] & 0x20 != 0 ==> {
            let (a, end) = looked(
                ReceiveView::Mode,
                seq![ReplyView::Transferred(m), ReplyView::Transferred(f), ReplyView::Done],
            );
            &&& end == Some(None::<packet::PacketView>)
            &&& spi::register_written(a.last()) == Some((0x12int, 0xFFu8))
        },
{
    reveal_with_fuel(looked, 4);
    assert((0x12u8 | 0x80u8) == 0x92) by (bit_vector);
    let r = seq![ReplyView::Transferred(m), ReplyView::Transferred(f)];
    assert(r.skip(1)[0] == r[1]);
    let q = seq![ReplyView::Transferred(m), ReplyView::Transferred(f), ReplyView::Done];
    assert(q.skip(1)[0] == q[1]);
    assert(q.skip(1).skip(1)[0] == q[2]);
    if f[1] & 0x40 != 0 && f[1] & 0x20 != 0 {
        let a = looked(ReceiveView::Mode, q).0;
        assert(a =~= seq![ReceiveView::Flags.due(), ReceiveView::Clear(true).due()]);
    }
}

/// A packet that came undamaged is read out whole: from where the transceiver
/// says that it begins, as many bytes as it says that there are. Its first two
/// bytes are the sender's address, the high one first, the others the payload;
/// its strength is 164 below the register's value.
pub proof fn law_good_packet_is_read(
    m: Seq<u8>,
    f: Seq<u8>,
    n: Seq<u8>,
    cur: Seq<u8>,
    fifo: Seq<u8>,
    rssi: Seq<u8>,
)
    requires
        m.len() == 2 && f.len() == 2 && n.len() == 2 && cur.len() == 2 && rssi.len() == 2,
        m[1] & 7 == 5,
        f[1] & 0x40 != 0,
        f[1] & 0x20 == 0,
        2 <= n[1] <= 240,
        fifo.len() == n[1] + 1,
    ensures
        ({
            let (a, end) = looked(
                ReceiveView::Mode,
                seq![
                    ReplyView::Transferred(m),
                    ReplyView::Transferred(f),
                    ReplyView::Done,
                    ReplyView::Transferred(n),
                    ReplyView::Transferred(cur),
                    ReplyView::Done,
                    ReplyView::Transferred(fifo),
                    ReplyView::Transferred(rssi),
                ],
            );
            &&& a.len() == 7
            &&& a[0] == ActionView::Transfer(seq![0x12u8, 0u8])
            &&& spi::register_written(a[1]) == Some((0x12int, 0xFFu8))
            &&& a[2] == ActionView::Transfer(seq![0x13u8, 0u8])
            &&& a[3] == ActionView::Transfer(seq![0x10u8, 0u8])
            &&& spi::register_written(a[4]) == Some((0x0Dint, cur[1]))
            &&& a[5] matches ActionView::Transfer(t)
            &&& t.len() == n[1] + 1
            &&& t[0] == 0
            &&& a[6] == ActionView::Transfer(seq![0x1Au8, 0u8])
            &&& end matches Some(Some(p))
            &&& p.src_addr == fifo[1] * 256 + fifo[2]
            &&& p.payload == fifo.skip(3)
            &&& p.rssi matches Some(dbm)
            &&& dbm == rssi[1] - 164
        }),
{
    reveal_with_fuel(looked, 9);
    assert((0x12u8 | 0x80u8) == 0x92 && (0x0Du8 | 0x80u8) == 0x8D && (0x12u8 & 0x7Fu8) == 0x12 && (
    0x13u8 & 0x7Fu8) == 0x13 && (0x10u8 & 0x7Fu8) == 0x10 && (0x1Au8 & 0x7Fu8) == 0x1A && (0u8
        & 0x7Fu8) == 0) by (bit_vector);
    let r = seq![
        ReplyView::Transferred(m),
        ReplyView::Transferred(f),
        ReplyView::Done,
        ReplyView::Transferred(n),
        ReplyView::Transferred(cur),
        ReplyView::Done,
        ReplyView::Transferred(fifo),
        ReplyView::Transferred(rssi),
    ];
    let r1 = r.skip(1);
    let r2 = r1.skip(1);
    let r3 = r2.skip(1);
    let r4 = r3.skip(1);
    let r5 = r4.skip(1);
    let r6 = r5.skip(1);
    let r7 = r6.skip(1);
    assert(r1[0] == r[1] && r2[0] == r[2] && r3[0] == r[3] && r4[0] == r[4] && r5[0] == r[5]
        && r6[0] == r[6] && r7[0] == r[7]);
    let a = looked(ReceiveView::Mode, r).0;
    assert(a =~= seq![
        ReceiveView::Flags.due(),
        ReceiveView::Clear(false).due(),
        ReceiveView::Count.due(),
        ReceiveView::Current(n[1]).due(),
        ReceiveView::SetPointer(n[1], cur[1]).due(),
        ReceiveView::Fifo(n[1]).due(),
        ReceiveView::Rssi(fifo.skip(1)).due(),
    ]);
    assert(fifo.skip(1).skip(2) =~= fifo.skip(3));
}

} // verus!
