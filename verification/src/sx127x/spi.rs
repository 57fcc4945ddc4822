//! The transceiver on an SPI bus.
//!
//! Every operation is a machine: it names the next thing to do on the bus, the
//! reset line, the clock or the DIO0 line, takes the reply and goes on. Whoever
//! owns the hardware runs the machine; an operation that fails on the hardware
//! is abandoned where it stands.

use vstd::prelude::*;
use super::config::Config;
use super::TimeoutKind;

verus! {

pub const REG_FIFO: u8 = 0x00;

pub const REG_OP_MODE: u8 = 0x01;

pub const REG_FRF_MSB: u8 = 0x06;

pub const REG_FRF_MID: u8 = 0x07;

pub const REG_FRF_LSB: u8 = 0x08;

pub const REG_PA_CONFIG: u8 = 0x09;

pub const REG_FIFO_ADDR_PTR: u8 = 0x0D;

pub const REG_FIFO_TX_BASE_ADDR: u8 = 0x0E;

pub const REG_FIFO_RX_BASE_ADDR: u8 = 0x0F;

pub const REG_FIFO_RX_CURRENT_ADDR: u8 = 0x10;

pub const REG_IRQ_FLAGS: u8 = 0x12;

pub const REG_RX_NB_BYTES: u8 = 0x13;

pub const REG_PKT_RSSI_VALUE: u8 = 0x1A;

pub const REG_MODEM_CONFIG_1: u8 = 0x1D;

pub const REG_MODEM_CONFIG_2: u8 = 0x1E;

pub const REG_PREAMBLE_MSB: u8 = 0x20;

pub const REG_PREAMBLE_LSB: u8 = 0x21;

pub const REG_PAYLOAD_LENGTH: u8 = 0x22;

pub const REG_MODEM_CONFIG_3: u8 = 0x26;

pub const REG_DETECTION_OPTIMIZE: u8 = 0x31;

pub const REG_DETECTION_THRESHOLD: u8 = 0x37;

pub const REG_SYNC_WORD: u8 = 0x39;

pub const REG_DIO_MAPPING1: u8 = 0x40;

pub const REG_VERSION: u8 = 0x42;

pub const REG_PA_DAC: u8 = 0x4D;

/// Mode bit that selects LoRa.
pub const LONG_RANGE_MODE: u8 = 0x80;

pub const MODE_SLEEP: u8 = 0x00;

pub const MODE_STDBY: u8 = 0x01;

pub const MODE_TX: u8 = 0x03;

pub const MODE_RXCONTINUOUS: u8 = 0x05;

pub const MODE_CAD: u8 = 0x07;

pub const MODE_MASK: u8 = 0x07;

pub const IRQ_TX_DONE: u8 = 0x08;

pub const IRQ_RX_DONE: u8 = 0x40;

pub const IRQ_PAYLOAD_CRC_ERROR: u8 = 0x20;

pub const IRQ_CAD_DONE: u8 = 0x04;

pub const IRQ_CAD_DETECTED: u8 = 0x01;

pub const DIO0_MAPPING_TXDONE: u8 = 0x40;

pub const DIO0_MAPPING_CADDONE: u8 = 0x80;

/// Most bytes of a payload to send.
pub const MAX_PAYLOAD: usize = 240;

/// Time between two looks at a completion.
pub const POLL_INTERVAL_US: u32 = 100;

/// One thing to do on the hardware.
#[derive(Debug, PartialEq, Eq)]
pub enum SpiAction {
    /// Write these bytes to the bus.
    Write(Vec<u8>),
    /// Exchange these bytes in place on the bus.
    Transfer(Vec<u8>),
    /// Drive the reset line high or low.
    Reset(bool),
    /// Wait for this many microseconds.
    DelayUs(u32),
    /// Read the level of DIO0.
    ReadDio0,
    /// Block until DIO0 rises, for this many microseconds at most.
    WaitDio0(u32),
}

/// An action as a value.
pub enum ActionView {
    Write(Seq<u8>),
    Transfer(Seq<u8>),
    Reset(bool),
    DelayUs(u32),
    ReadDio0,
    WaitDio0(u32),
}

impl View for SpiAction {
    type V = ActionView;

    open spec fn view(&self) -> ActionView {
        match *self {
            SpiAction::Write(b) => ActionView::Write(b@),
            SpiAction::Transfer(b) => ActionView::Transfer(b@),
            SpiAction::Reset(high) => ActionView::Reset(high),
            SpiAction::DelayUs(us) => ActionView::DelayUs(us),
            SpiAction::ReadDio0 => ActionView::ReadDio0,
            SpiAction::WaitDio0(us) => ActionView::WaitDio0(us),
        }
    }
}

/// A list of actions as values.
pub open spec fn views(v: Seq<SpiAction>) -> Seq<ActionView> {
    Seq::new(v.len(), |i: int| v[i]@)
}

/// What came of an action.
#[derive(Debug)]
pub enum Reply {
    /// A write, a delay or a reset is done.
    Done,
    /// The bytes of a transfer after the exchange.
    Transferred(Vec<u8>),
    /// The level of DIO0, or whether its rise was seen.
    Level(bool),
}

/// A reply as a value.
pub enum ReplyView {
    Done,
    Transferred(Seq<u8>),
    Level(bool),
}

impl View for Reply {
    type V = ReplyView;

    open spec fn view(&self) -> ReplyView {
        match *self {
            Reply::Done => ReplyView::Done,
            Reply::Transferred(b) => ReplyView::Transferred(b@),
            Reply::Level(l) => ReplyView::Level(l),
        }
    }
}

/// Whether `reply` is a possible outcome of `action`.
pub open spec fn answers(action: ActionView, reply: ReplyView) -> bool {
    match action {
        ActionView::Write(_) => reply is Done,
        ActionView::Transfer(b) => reply matches ReplyView::Transferred(c) && c.len() == b.len(),
        ActionView::Reset(_) => reply is Done,
        ActionView::DelayUs(_) => reply is Done,
        ActionView::ReadDio0 => reply is Level,
        ActionView::WaitDio0(_) => reply is Level,
    }
}

/// Setting a register.
pub open spec fn write(addr: u8, value: u8) -> ActionView {
    ActionView::Write(seq![addr | 0x80, value])
}

/// Reading a register.
pub open spec fn read(addr: u8) -> ActionView {
    ActionView::Transfer(seq![addr & 0x7F, 0x00u8])
}

/// Changing the mode.
pub open spec fn mode(m: u8) -> ActionView {
    write(REG_OP_MODE, LONG_RANGE_MODE | m)
}

/// Sets a register: the address with its write bit, then the value.
pub fn write_register(addr: u8, value: u8) -> (r: SpiAction)
    ensures
        r@ == write(addr, value),
{
    let mut b: Vec<u8> = Vec::new();
    b.push(addr | 0x80);
    b.push(value);
    assert(b@ =~= seq![addr | 0x80, value]);
    SpiAction::Write(b)
}

/// Reads a register: the value comes back in the second byte.
pub fn read_register(addr: u8) -> (r: SpiAction)
    ensures
        r@ == read(addr),
{
    let mut b: Vec<u8> = Vec::new();
    b.push(addr & 0x7F);
    b.push(0x00);
    assert(b@ =~= seq![addr & 0x7F, 0x00u8]);
    SpiAction::Transfer(b)
}

/// Changes the mode, in LoRa operation.
pub fn set_mode(m: u8) -> (r: SpiAction)
    ensures
        r@ == mode(m),
{
    write_register(REG_OP_MODE, LONG_RANGE_MODE | m)
}

/// Fills the FIFO in one write.
pub fn write_fifo(data: &[u8]) -> (r: SpiAction)
    ensures
        r@ == ActionView::Write(seq![REG_FIFO | 0x80] + data@),
{
    let mut b: Vec<u8> = Vec::new();
    b.push(REG_FIFO | 0x80);
    b.extend_from_slice(data);
    assert(b@ =~= seq![REG_FIFO | 0x80] + data@);
    SpiAction::Write(b)
}

/// Reads `n` bytes out of the FIFO in one uninterrupted transfer; they come
/// back behind the first byte.
pub fn read_fifo(n: usize) -> (r: SpiAction)
    ensures
        r@ == ActionView::Transfer(seq![REG_FIFO & 0x7F] + Seq::new(n as nat, |i: int| 0u8)),
{
    let mut b: Vec<u8> = Vec::new();
    b.push(REG_FIFO & 0x7F);
    let mut i: usize = 0;
    while i < n
        invariant
            i <= n,
            b@ == seq![REG_FIFO & 0x7F] + Seq::new(i as nat, |i: int| 0u8),
        decreases n - i,
    {
        b.push(0x00);
        i += 1;
        assert(b@ =~= seq![REG_FIFO & 0x7F] + Seq::new(i as nat, |i: int| 0u8));
    }
    SpiAction::Transfer(b)
}

/// A hardware reset: reset line low for a millisecond, then high, and ten
/// milliseconds to come up.
pub open spec fn reset_plan() -> Seq<ActionView> {
    seq![
        ActionView::Reset(false),
        ActionView::DelayUs(1_000),
        ActionView::Reset(true),
        ActionView::DelayUs(10_000),
    ]
}

/// All actions of a hardware reset.
pub fn hardware_reset() -> (r: Vec<SpiAction>)
    ensures
        views(r@) == reset_plan(),
{
    let mut v: Vec<SpiAction> = Vec::new();
    v.push(SpiAction::Reset(false));
    v.push(SpiAction::DelayUs(1_000));
    v.push(SpiAction::Reset(true));
    v.push(SpiAction::DelayUs(10_000));
    assert(views(v@) =~= reset_plan());
    v
}

/// Everything that brings the modem to a configuration: a reset, LoRa mode out
/// of sleep, carrier, power, modem settings, preamble, sync word, detection,
/// FIFO bases, standby.
pub open spec fn configure_plan(c: Config) -> Seq<ActionView> {
    let frf = c.freq_hz * 524_288 / 32_000_000;
    let dbm = super::config::clamped(c.tx_power_dbm as int, 2, 20);
    let sf = super::config::clamped(c.spreading_factor as int, 7, 12);
    reset_plan() + seq![
        mode(MODE_SLEEP),
        mode(MODE_STDBY),
        write(REG_FRF_MSB, (frf / 0x1_0000 % 256) as u8),
        write(REG_FRF_MID, (frf / 256 % 256) as u8),
        write(REG_FRF_LSB, (frf % 256) as u8),
        write(
            REG_PA_CONFIG,
            if dbm > 17 {
                0x8F
            } else {
                (0x80 + (dbm - 2)) as u8
            },
        ),
        write(
            REG_PA_DAC,
            if dbm > 17 {
                0x87
            } else {
                0x84
            },
        ),
        write(
            REG_MODEM_CONFIG_1,
            (c.bandwidth.rank() * 16 + (c.coding_rate.den() - 4) * 2) as u8,
        ),
        write(
            REG_MODEM_CONFIG_2,
            (sf * 16 + if c.crc_on {
                4int
            } else {
                0
            }) as u8,
        ),
        write(
            REG_MODEM_CONFIG_3,
            if c.slow() {
                0x08
            } else {
                0x00
            },
        ),
        write(REG_PREAMBLE_MSB, (c.preamble_len / 256) as u8),
        write(REG_PREAMBLE_LSB, (c.preamble_len % 256) as u8),
        write(REG_SYNC_WORD, c.sync_word),
        write(
            REG_DETECTION_OPTIMIZE,
            if c.spreading_factor == 6 {
                0x05
            } else {
                0x03
            },
        ),
        write(
            REG_DETECTION_THRESHOLD,
            if c.spreading_factor == 6 {
                0x0C
            } else {
                0x0A
            },
        ),
        write(REG_FIFO_TX_BASE_ADDR, 0x00),
        write(REG_FIFO_RX_BASE_ADDR, 0x00),
        mode(MODE_STDBY),
    ]
}

/// All actions that apply a configuration.
pub fn configure(c: &Config) -> (r: Vec<SpiAction>)
    requires
        c.spreading_factor <= 44,
    ensures
        views(r@) == configure_plan(*c),
{
    let mut v: Vec<SpiAction> = hardware_reset();
    let ghost start = v@;
    v.push(set_mode(MODE_SLEEP));
    v.push(set_mode(MODE_STDBY));
    let frf: u32 = c.frf_register();
    v.push(write_register(REG_FRF_MSB, (frf / 0x1_0000 % 256) as u8));
    v.push(write_register(REG_FRF_MID, (frf / 256 % 256) as u8));
    v.push(write_register(REG_FRF_LSB, (frf % 256) as u8));
    let (pa_config, pa_dac) = c.pa_config_bytes();
    v.push(write_register(REG_PA_CONFIG, pa_config));
    v.push(write_register(REG_PA_DAC, pa_dac));
    let sf: u8 = if c.spreading_factor < 7 {
        7
    } else if c.spreading_factor > 12 {
        12
    } else {
        c.spreading_factor
    };
    v.push(
        write_register(
            REG_MODEM_CONFIG_1,
            c.bandwidth.register_value() * 16 + c.coding_rate.register_value() * 2,
        ),
    );
    v.push(
        write_register(
            REG_MODEM_CONFIG_2,
            sf * 16 + if c.crc_on {
                4
            } else {
                0
            },
        ),
    );
    v.push(
        write_register(
            REG_MODEM_CONFIG_3,
            if c.low_data_rate_optimize() {
                0x08
            } else {
                0x00
            },
        ),
    );
    v.push(write_register(REG_PREAMBLE_MSB, (c.preamble_len / 256) as u8));
    v.push(write_register(REG_PREAMBLE_LSB, (c.preamble_len % 256) as u8));
    v.push(write_register(REG_SYNC_WORD, c.sync_word));
    let (optimize, threshold) = c.detection_registers();
    v.push(write_register(REG_DETECTION_OPTIMIZE, optimize));
    v.push(write_register(REG_DETECTION_THRESHOLD, threshold));
    v.push(write_register(REG_FIFO_TX_BASE_ADDR, 0x00));
    v.push(write_register(REG_FIFO_RX_BASE_ADDR, 0x00));
    v.push(set_mode(MODE_STDBY));
    proof {
        assert(views(start).len() == reset_plan().len());
        assert(forall|i: int| 0 <= i < 4 ==> v@[i] == start[i]);
        assert forall|i: int| 0 <= i < 4 implies views(v@)[i] == configure_plan(*c)[i] by {
            assert(views(start)[i] == reset_plan()[i]);
        }
        assert(views(v@) =~= configure_plan(*c));
    }
    v
}

/// Which completion is waited for.
#[derive(Debug, Clone, Copy, PartialEq, Eq, Structural)]
pub enum WaitFor {
    TxDone,
    CadDone,
}

impl WaitFor {
    /// The interrupt flag of the completion.
    pub open spec fn flag(self) -> u8 {
        match self {
            WaitFor::TxDone => IRQ_TX_DONE,
            WaitFor::CadDone => IRQ_CAD_DONE,
        }
    }

    /// The DIO0 mapping that shows the completion.
    pub open spec fn mapping(self) -> u8 {
        match self {
            WaitFor::TxDone => DIO0_MAPPING_TXDONE,
            WaitFor::CadDone => DIO0_MAPPING_CADDONE,
        }
    }

    /// What it is called when the completion never comes.
    pub open spec fn kind(self) -> TimeoutKind {
        match self {
            WaitFor::TxDone => TimeoutKind::TxDone,
            WaitFor::CadDone => TimeoutKind::ChannelActivityDetection,
        }
    }

    /// The interrupt flag of the completion.
    pub fn irq_bit(&self) -> (r: u8)
        ensures
            r == self.flag(),
    {
        match self {
            WaitFor::TxDone => IRQ_TX_DONE,
            WaitFor::CadDone => IRQ_CAD_DONE,
        }
    }

    /// The DIO0 mapping that shows the completion.
    pub fn dio0_mapping(&self) -> (r: u8)
        ensures
            r == self.mapping(),
    {
        match self {
            WaitFor::TxDone => DIO0_MAPPING_TXDONE,
            WaitFor::CadDone => DIO0_MAPPING_CADDONE,
        }
    }

    /// What it is called when the completion never comes.
    pub fn timeout_kind(&self) -> (r: TimeoutKind)
        ensures
            r == self.kind(),
    {
        match self {
            WaitFor::TxDone => TimeoutKind::TxDone,
            WaitFor::CadDone => TimeoutKind::ChannelActivityDetection,
        }
    }
}

/// How a completion is seen.
#[derive(Debug, Clone, Copy, PartialEq, Eq, Structural)]
pub enum Completion {
    /// By reading the interrupt flags again and again.
    PollFlags,
    /// By reading the DIO0 level again and again.
    PollDio0,
    /// By blocking on the DIO0 line.
    AwaitDio0,
}

/// Where a wait stands; named after the action whose reply is due.
#[derive(Debug, Clone, Copy, PartialEq, Eq, Structural)]
pub enum WaitStage {
    /// DIO0 is being mapped to the completion.
    Route,
    /// The blocking wait is on.
    Await,
    /// One look at the completion, of this many that are left.
    Watch(u32),
    /// The pause after a look, with this many looks left.
    Pause(u32),
    /// The interrupt flags are read once after DIO0 rose.
    Flags,
}

/// A wait for a completion.
#[derive(Debug, Clone, Copy, PartialEq, Eq, Structural)]
pub struct Wait {
    pub event: WaitFor,
    pub how: Completion,
    pub timeout_us: u32,
    pub stage: WaitStage,
}

/// How a wait goes on.
#[derive(Debug)]
pub enum WaitStep {
    /// Do this next.
    More(Wait, SpiAction),
    /// The completion came, with these interrupt flags.
    Ready(u8),
    /// The completion did not come.
    TimedOut(TimeoutKind),
}

/// A step of a wait as a value.
pub enum WaitStepView {
    More(Wait, ActionView),
    Ready(u8),
    TimedOut(TimeoutKind),
}

impl View for WaitStep {
    type V = WaitStepView;

    open spec fn view(&self) -> WaitStepView {
        match *self {
            WaitStep::More(w, a) => WaitStepView::More(w, a@),
            WaitStep::Ready(irq) => WaitStepView::Ready(irq),
            WaitStep::TimedOut(k) => WaitStepView::TimedOut(k),
        }
    }
}

/// How many looks fit in a timeout; at least one.
pub open spec fn polls(timeout_us: u32) -> u32 {
    if timeout_us / POLL_INTERVAL_US == 0 {
        1
    } else {
        timeout_us / POLL_INTERVAL_US
    }
}

impl Wait {
    /// A look at the completion.
    pub open spec fn look(self) -> ActionView {
        match self.how {
            Completion::PollFlags => read(REG_IRQ_FLAGS),
            _ => ActionView::ReadDio0,
        }
    }

    /// The action whose reply is due.
    pub open spec fn due(self) -> ActionView {
        match self.stage {
            WaitStage::Route => write(REG_DIO_MAPPING1, self.event.mapping()),
            WaitStage::Await => ActionView::WaitDio0(self.timeout_us),
            WaitStage::Watch(_) => self.look(),
            WaitStage::Pause(_) => ActionView::DelayUs(POLL_INTERVAL_US),
            WaitStage::Flags => read(REG_IRQ_FLAGS),
        }
    }

    /// Whether the stage fits how the completion is seen.
    pub open spec fn valid(self) -> bool {
        match self.stage {
            WaitStage::Route => self.how != Completion::PollFlags,
            WaitStage::Await => self.how == Completion::AwaitDio0,
            WaitStage::Watch(n) => self.how != Completion::AwaitDio0 && n > 0,
            WaitStage::Pause(n) => self.how != Completion::AwaitDio0,
            WaitStage::Flags => self.how != Completion::PollFlags,
        }
    }

    /// The first stage of a wait.
    pub open spec fn begun(event: WaitFor, how: Completion, timeout_us: u32) -> Wait {
        Wait {
            event,
            how,
            timeout_us,
            stage: match how {
                Completion::PollFlags => WaitStage::Watch(polls(timeout_us)),
                _ => WaitStage::Route,
            },
        }
    }

    /// The wait in another stage, and the action that belongs to it.
    pub open spec fn at(self, stage: WaitStage) -> WaitStepView {
        let w = Wait { stage, ..self };
        WaitStepView::More(w, w.due())
    }

    /// How the wait goes on after a reply.
    pub open spec fn next(self, reply: ReplyView) -> WaitStepView {
        match (self.stage, reply) {
            (WaitStage::Route, _) => if self.how == Completion::AwaitDio0 {
                self.at(WaitStage::Await)
            } else {
                self.at(WaitStage::Watch(polls(self.timeout_us)))
            },
            (WaitStage::Await, ReplyView::Level(high)) => if high {
                self.at(WaitStage::Flags)
            } else {
                WaitStepView::TimedOut(self.event.kind())
            },
            (WaitStage::Watch(n), ReplyView::Level(high)) => if high {
                self.at(WaitStage::Flags)
            } else {
                self.at(WaitStage::Pause((n - 1) as u32))
            },
            (WaitStage::Watch(n), ReplyView::Transferred(b)) => if b[1] & self.event.flag() != 0 {
                WaitStepView::Ready(b[1])
            } else {
                self.at(WaitStage::Pause((n - 1) as u32))
            },
            (WaitStage::Pause(n), _) => if n > 0 {
                self.at(WaitStage::Watch(n))
            } else {
                WaitStepView::TimedOut(self.event.kind())
            },
            (WaitStage::Flags, ReplyView::Transferred(b)) => WaitStepView::Ready(b[1]),
            _ => arbitrary(),
        }
    }

    /// The action whose reply is due.
    fn action(&self) -> (r: SpiAction)
        ensures
            r@ == self.due(),
    {
        match self.stage {
            WaitStage::Route => write_register(REG_DIO_MAPPING1, self.event.dio0_mapping()),
            WaitStage::Await => SpiAction::WaitDio0(self.timeout_us),
            WaitStage::Watch(_) => match self.how {
                Completion::PollFlags => read_register(REG_IRQ_FLAGS),
                _ => SpiAction::ReadDio0,
            },
            WaitStage::Pause(_) => SpiAction::DelayUs(POLL_INTERVAL_US),
            WaitStage::Flags => read_register(REG_IRQ_FLAGS),
        }
    }

    /// The wait in another stage, and the action that belongs to it.
    fn go(&self, stage: WaitStage) -> (r: WaitStep)
        ensures
            r@ == self.at(stage),
    {
        let w = Wait { event: self.event, how: self.how, timeout_us: self.timeout_us, stage };
        WaitStep::More(w, w.action())
    }

    /// How many looks fit in the timeout.
    fn max_polls(timeout_us: u32) -> (r: u32)
        ensures
            r == polls(timeout_us),
    {
        let n: u32 = timeout_us / POLL_INTERVAL_US;
        if n == 0 {
            1
        } else {
            n
        }
    }

    /// Starts to wait.
    pub fn begin(event: WaitFor, how: Completion, timeout_us: u32) -> (r: (Wait, SpiAction))
        ensures
            r.0 == Wait::begun(event, how, timeout_us),
            r.0.valid(),
            r.1@ == r.0.due(),
    {
        let stage = match how {
            Completion::PollFlags => WaitStage::Watch(Wait::max_polls(timeout_us)),
            _ => WaitStage::Route,
        };
        let w = Wait { event, how, timeout_us, stage };
        (w, w.action())
    }

    /// Takes the reply to the action that was due.
    pub fn step(&self, reply: &Reply) -> (r: WaitStep)
        requires
            self.valid(),
            answers(self.due(), reply@),
        ensures
            r@ == self.next(reply@),
            r matches WaitStep::More(w, a) ==> w.valid() && a@ == w.due(),
    {
        match (self.stage, reply) {
            (WaitStage::Route, _) => match self.how {
                Completion::AwaitDio0 => self.go(WaitStage::Await),
                _ => self.go(WaitStage::Watch(Wait::max_polls(self.timeout_us))),
            },
            (WaitStage::Await, Reply::Level(high)) => if *high {
                self.go(WaitStage::Flags)
            } else {
                WaitStep::TimedOut(self.event.timeout_kind())
            },
            (WaitStage::Watch(n), Reply::Level(high)) => if *high {
                self.go(WaitStage::Flags)
            } else {
                self.go(WaitStage::Pause(n - 1))
            },
            (WaitStage::Watch(n), Reply::Transferred(b)) => if b[1] & self.event.irq_bit() != 0 {
                WaitStep::Ready(b[1])
            } else {
                self.go(WaitStage::Pause(n - 1))
            },
            (WaitStage::Pause(n), _) => if n > 0 {
                self.go(WaitStage::Watch(n))
            } else {
                WaitStep::TimedOut(self.event.timeout_kind())
            },
            (WaitStage::Flags, Reply::Transferred(b)) => WaitStep::Ready(b[1]),
            _ => WaitStep::TimedOut(self.event.timeout_kind()),
        }
    }
}

/// The register that an action writes, and the value; `None` for an action that
/// writes none.
pub open spec fn register_written(a: ActionView) -> Option<(int, u8)> {
    match a {
        ActionView::Write(b) => if b.len() == 2 && b[0] >= 128 {
            Some((b[0] - 128, b[1]))
        } else {
            None
        },
        _ => None,
    }
}

/// What actions leave in a register: what the last one that writes it wrote.
pub open spec fn left_in(plan: Seq<ActionView>, register: int) -> Option<u8>
    decreases plan.len(),
{
    if plan.len() == 0 {
        None
    } else {
        match register_written(plan.last()) {
            Some((r, v)) => if r == register {
                Some(v)
            } else {
                left_in(plan.drop_last(), register)
            },
            None => left_in(plan.drop_last(), register),
        }
    }
}

/// The last write of a register counts.
proof fn lemma_left_in(plan: Seq<ActionView>, register: int, i: int, v: u8)
    requires
        0 <= i < plan.len(),
        register_written(plan[i]) == Some((register, v)),
        forall|j: int|
            i < j < plan.len() ==> !(#[trigger] register_written(plan[j]) matches Some((r, _)) && r
                == register),
    ensures
        left_in(plan, register) == Some(v),
    decreases plan.len(),
{
    if i < plan.len() - 1 {
        assert(!(register_written(plan[plan.len() - 1]) matches Some((r, _)) && r == register));
        assert forall|j: int| i < j < plan.drop_last().len() implies !(
        #[trigger] register_written(plan.drop_last()[j]) matches Some((r, _)) && r == register) by {
            assert(plan.drop_last()[j] == plan[j]);
        }
        lemma_left_in(plan.drop_last(), register, i, v);
    }
}

/// A write of a register is seen as such.
proof fn lemma_write(addr: u8, v: u8)
    requires
        addr < 128,
    ensures
        register_written(write(addr, v)) == Some((addr as int, v)),
{
    assert((addr | 0x80) == addr + 128) by (bit_vector)
        requires
            addr < 128,
    ;
}

/// The order of the register writes of a configuration.
proof fn lemma_order(c: Config)
    ensures
        configure_plan(c).len() == 22,
        forall|i: int| 0 <= i < 4 ==> register_written(#[trigger] configure_plan(c)[i]) is None,
        register_written(configure_plan(c)[4]) == Some((0x01int, 0x80u8)),
        register_written(configure_plan(c)[5]) == Some((0x01int, 0x81u8)),
        register_written(configure_plan(c)[21]) == Some((0x01int, 0x81u8)),
        forall|i: int|
            6 <= i < 21 ==> {
                &&& register_written(#[trigger] configure_plan(c)[i]) matches Some((r, _))
                &&& r == seq![
                    0x06int, 0x07, 0x08, 0x09, 0x4D, 0x1D, 0x1E, 0x26, 0x20, 0x21, 0x39, 0x31, 0x37,
                    0x0E, 0x0F,
                ][i - 6]
            },
{
    let p = configure_plan(c);
    assert((0x80u8 | 0u8) == 0x80 && (0x80u8 | 1u8) == 0x81) by (bit_vector);
    lemma_write(REG_OP_MODE, 0x80);
    lemma_write(REG_OP_MODE, 0x81);
    assert forall|i: int| 6 <= i < 21 implies ({
        &&& register_written(#[trigger] p[i]) matches Some((r, _))
        &&& r == seq![
            0x06int, 0x07, 0x08, 0x09, 0x4D, 0x1D, 0x1E, 0x26, 0x20, 0x21, 0x39, 0x31, 0x37, 0x0E,
            0x0F,
        ][i - 6]
    }) by {
        let addr = seq![
            0x06u8, 0x07, 0x08, 0x09, 0x4D, 0x1D, 0x1E, 0x26, 0x20, 0x21, 0x39, 0x31, 0x37, 0x0E,
            0x0F,
        ][i - 6];
        let v = p[i]->Write_0[1];
        assert(p[i] == write(addr, v));
        lemma_write(addr, v);
    }
}

/// What a configuration leaves in the register that it writes as number `i`.
proof fn lemma_configured(c: Config, i: int, register: int)
    requires
        6 <= i <= 21,
        register_written(configure_plan(c)[i]) matches Some((r, _)) && r == register,
    ensures
        left_in(configure_plan(c), register) == Some(configure_plan(c)[i]->Write_0[1]),
{
    lemma_order(c);
    lemma_left_in(configure_plan(c), register, i, configure_plan(c)[i]->Write_0[1]);
}

/// The carrier that a configuration leaves in the transceiver is the highest not
/// above the frequency, in steps of 32 MHz / 2^19, read from the three carrier
/// registers with the most significant byte in the first.
pub proof fn law_carrier_is_the_frequency(c: Config)
    requires
        c.freq_hz < 1_024_000_000,
    ensures
        ({
            let p = configure_plan(c);
            &&& left_in(p, 0x06) matches Some(msb)
            &&& left_in(p, 0x07) matches Some(mid)
            &&& left_in(p, 0x08) matches Some(lsb)
            &&& {
                let frf = msb * 65_536 + mid * 256 + lsb;
                &&& frf == c.freq_hz * 524_288 / 32_000_000
                &&& frf * 32_000_000 <= c.freq_hz * 524_288 < (frf + 1) * 32_000_000
            }
        }),
{
    lemma_order(c);
    lemma_configured(c, 6, 0x06);
    lemma_configured(c, 7, 0x07);
    lemma_configured(c, 8, 0x08);
}

/// Frequencies a step or more apart leave different carriers.
pub proof fn law_carriers_differ(c: Config, d: Config)
    requires
        c.freq_hz + 62 <= d.freq_hz < 1_024_000_000,
    ensures
        left_in(configure_plan(c), 0x06) != left_in(configure_plan(d), 0x06) || left_in(
            configure_plan(c),
            0x07,
        ) != left_in(configure_plan(d), 0x07) || left_in(configure_plan(c), 0x08) != left_in(
            configure_plan(d),
            0x08,
        ),
{
    law_carrier_is_the_frequency(c);
    law_carrier_is_the_frequency(d);
}

/// The modem settings that a configuration leaves in the transceiver are those
/// asked for: sync word and preamble as they are; bandwidth, coding rate,
/// spreading factor and checksum in the fields of the modem registers; the low
/// data rate optimisation where a symbol takes more than 16 ms.
pub proof fn law_modem_is_as_configured(c: Config)
    ensures
        left_in(configure_plan(c), 0x39) == Some(c.sync_word),
        left_in(configure_plan(c), 0x20) matches Some(hi) && left_in(configure_plan(c), 0x21) matches Some(
            lo,
        ) && hi * 256 + lo == c.preamble_len,
        left_in(configure_plan(c), 0x1D) matches Some(m) && m / 16 == c.bandwidth.rank() && m % 16
            == 2 * (c.coding_rate.den() - 4),
        left_in(configure_plan(c), 0x1E) matches Some(m) && m % 16 == (if c.crc_on {
            4int
        } else {
            0
        }) && m / 16 >= 7 && m / 16 <= 12 && (7 <= c.spreading_factor <= 12 ==> m / 16
            == c.spreading_factor),
        left_in(configure_plan(c), 0x26) == Some(
            if vstd::arithmetic::power2::pow2(c.spreading_factor as nat) as int * 1_000_000 / (
            c.bandwidth.in_hz() as int) > 16_000 {
                8u8
            } else {
                0u8
            },
        ),
        c.spreading_factor != 6 ==> left_in(configure_plan(c), 0x31) == Some(0x03u8) && left_in(
            configure_plan(c),
            0x37,
        ) == Some(0x0Au8),
        c.spreading_factor == 6 ==> left_in(configure_plan(c), 0x31) == Some(0x05u8) && left_in(
            configure_plan(c),
            0x37,
        ) == Some(0x0Cu8),
        left_in(configure_plan(c), 0x0E) == Some(0u8),
        left_in(configure_plan(c), 0x0F) == Some(0u8),
{
    lemma_order(c);
    lemma_configured(c, 11, 0x1D);
    lemma_configured(c, 12, 0x1E);
    lemma_configured(c, 13, 0x26);
    lemma_configured(c, 14, 0x20);
    lemma_configured(c, 15, 0x21);
    lemma_configured(c, 16, 0x39);
    lemma_configured(c, 17, 0x31);
    lemma_configured(c, 18, 0x37);
    lemma_configured(c, 19, 0x0E);
    lemma_configured(c, 20, 0x0F);
}

/// The power that a configuration leaves in the transceiver, on its boosted
/// output: two decibels above the power field, or five with the high power
/// setting; the one asked for from 2 to 17 dBm, and 20 dBm above that.
pub proof fn law_power_is_as_configured(c: Config)
    ensures
        left_in(configure_plan(c), 0x09) matches Some(pa) && left_in(configure_plan(c), 0x4D) matches Some(
            dac,
        ) && pa / 16 == 8 && (dac == 0x84 || dac == 0x87) && pa % 16 + (if dac == 0x87 {
            5int
        } else {
            2
        }) == (if c.tx_power_dbm < 2 {
            2int
        } else if c.tx_power_dbm <= 17 {
            c.tx_power_dbm as int
        } else {
            20
        }),
{
    lemma_order(c);
    lemma_configured(c, 9, 0x09);
    lemma_configured(c, 10, 0x4D);
}

/// A configuration resets the transceiver first, turns LoRa on in sleep before it
/// writes anything else, and leaves the transceiver in standby.
pub proof fn law_configured_from_a_reset(c: Config)
    ensures
        configure_plan(c)[0] == ActionView::Reset(false),
        configure_plan(c)[1] matches ActionView::DelayUs(us) && us >= 100,
        configure_plan(c)[2] == ActionView::Reset(true),
        configure_plan(c)[3] matches ActionView::DelayUs(us) && us >= 5_000,
        left_in(configure_plan(c).take(5), 0x01) == Some(0x80u8),
        forall|r: int| r != 0x01 ==> left_in(configure_plan(c).take(5), r) is None,
        left_in(configure_plan(c), 0x01) == Some(0x81u8),
{
    lemma_order(c);
    let p = configure_plan(c);
    lemma_configured(c, 21, 0x01);
    let t = p.take(5);
    assert(register_written(t[4]) == Some((0x01int, 0x80u8)));
    lemma_left_in(t, 0x01, 4, 0x80);
    assert forall|r: int| r != 0x01 implies left_in(t, r) is None by {
        reveal_with_fuel(left_in, 6);
        assert forall|i: int| 0 <= i < 4 implies register_written(#[trigger] t[i]) is None by {
            assert(t[i] == p[i]);
        }
        let a = t.drop_last();
        let b = a.drop_last();
        let d = b.drop_last();
        let e = d.drop_last();
        assert(t.last() == t[4]);
        assert(a.last() == t[3] && b.last() == t[2] && d.last() == t[1] && e.last() == t[0]);
    }
}

/// A wait on DIO0 maps the line to what is awaited first: the end of a
/// transmission by `01` in the two highest bits, the end of activity detection by
/// `10`; a wait on the flags maps nothing and looks at them at once.
pub proof fn law_line_is_mapped_to_the_event(how: Completion, timeout_us: u32)
    ensures
        how != Completion::PollFlags ==> register_written(
            Wait::begun(WaitFor::TxDone, how, timeout_us).due(),
        ) == Some((0x40int, 0x40u8)),
        how != Completion::PollFlags ==> register_written(
            Wait::begun(WaitFor::CadDone, how, timeout_us).due(),
        ) == Some((0x40int, 0x80u8)),
        how == Completion::PollFlags ==> Wait::begun(WaitFor::TxDone, how, timeout_us).due()
            == ActionView::Transfer(seq![0x12u8, 0u8]) && Wait::begun(
            WaitFor::CadDone,
            how,
            timeout_us,
        ).due() == ActionView::Transfer(seq![0x12u8, 0u8]),
{
    lemma_write(REG_DIO_MAPPING1, 0x40);
    lemma_write(REG_DIO_MAPPING1, 0x80);
    assert((0x12u8 & 0x7Fu8) == 0x12) by (bit_vector);
}

/// A wait looks every hundred microseconds, as often as fits in its time and at
/// least once; a blocking wait takes its time as it is.
pub proof fn law_wait_takes_its_time(w: Wait)
    ensures
        polls(w.timeout_us) >= 1,
        w.timeout_us >= 100 ==> 100 * polls(w.timeout_us) <= w.timeout_us < 100 * (polls(
            w.timeout_us,
        ) + 1),
        w.at(WaitStage::Await) matches WaitStepView::More(_, a) && a == ActionView::WaitDio0(
            w.timeout_us,
        ),
        w.at(WaitStage::Pause(1)) matches WaitStepView::More(_, a) && a == ActionView::DelayUs(100),
{
}

/// A wait is over where the line is high, once the flags were read, and goes on
/// where it is low; the blocking wait gives up where the line did not rise.
pub proof fn law_line_decides(w: Wait, n: u32, b: Seq<u8>)
    requires
        n > 0,
        b.len() == 2,
    ensures
        w.stage == WaitStage::Watch(n) ==> (w.next(ReplyView::Level(true)) matches WaitStepView::More(
            x,
            _,
        ) && x.stage == WaitStage::Flags),
        w.stage == WaitStage::Watch(n) ==> (w.next(ReplyView::Level(false)) matches WaitStepView::More(
            x,
            _,
        ) && x.stage == WaitStage::Pause((n - 1) as u32)),
        w.stage == WaitStage::Flags ==> w.next(ReplyView::Transferred(b)) == WaitStepView::Ready(
            b[1],
        ),
        w.stage == WaitStage::Await ==> (w.next(ReplyView::Level(false)) matches WaitStepView::TimedOut(
            k,
        ) && k == (match w.event {
            WaitFor::TxDone => TimeoutKind::TxDone,
            WaitFor::CadDone => TimeoutKind::ChannelActivityDetection,
        })),
{
}

} // verus!
