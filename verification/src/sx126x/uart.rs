//! An EBYTE E22 module on a serial port, with two mode pins.
//!
//! What has to be done on the port and the pins is given as lists of actions;
//! replies of the module are judged here.

use vstd::prelude::*;
use super::config::{AirSpeed, BufferSize, Config, TxPower};
use super::{config, ReceivedPacket, Sx126xError};
use crate::sx127x::packet;
use crate::sx127x::packet::payload_from;

verus! {

/// One thing to do on the port or the pins.
#[derive(Debug, PartialEq, Eq)]
pub enum UartAction {
    /// Drive the first mode pin high or low.
    M0(bool),
    /// Drive the second mode pin high or low.
    M1(bool),
    DelayMs(u32),
    /// Read and drop bytes until none is left.
    Drain,
    WriteAll(Vec<u8>),
    /// Read exactly this many bytes.
    ReadExact(usize),
    Flush,
}

/// An action as a value.
pub enum UartActionView {
    M0(bool),
    M1(bool),
    DelayMs(u32),
    Drain,
    WriteAll(Seq<u8>),
    ReadExact(usize),
    Flush,
}

impl View for UartAction {
    type V = UartActionView;

    open spec fn view(&self) -> UartActionView {
        match *self {
            UartAction::M0(h) => UartActionView::M0(h),
            UartAction::M1(h) => UartActionView::M1(h),
            UartAction::DelayMs(ms) => UartActionView::DelayMs(ms),
            UartAction::Drain => UartActionView::Drain,
            UartAction::WriteAll(b) => UartActionView::WriteAll(b@),
            UartAction::ReadExact(n) => UartActionView::ReadExact(n),
            UartAction::Flush => UartActionView::Flush,
        }
    }
}

/// A list of actions as values.
pub open spec fn views(v: Seq<UartAction>) -> Seq<UartActionView> {
    Seq::new(v.len(), |i: int| v[i]@)
}

/// Into configuration mode; the module needs half a second to settle.
pub open spec fn config_mode() -> Seq<UartActionView> {
    seq![UartActionView::M0(false), UartActionView::M1(true), UartActionView::DelayMs(500)]
}

/// Into normal operation.
pub open spec fn normal_mode() -> Seq<UartActionView> {
    seq![UartActionView::M0(false), UartActionView::M1(false), UartActionView::DelayMs(200)]
}

/// First byte of a module's answer.
pub const ANSWER: u8 = 0xC1;

/// Length of a register image.
pub const IMAGE_LEN: usize = 12;

/// Appends the change to configuration mode.
fn push_config_mode(v: &mut Vec<UartAction>)
    ensures
        views(final(v)@) == views(old(v)@) + config_mode(),
{
    v.push(UartAction::M0(false));
    v.push(UartAction::M1(true));
    v.push(UartAction::DelayMs(500));
    assert(views(v@) =~= views(old(v)@) + config_mode());
}

/// Appends the change to normal operation.
fn push_normal_mode(v: &mut Vec<UartAction>)
    ensures
        views(final(v)@) == views(old(v)@) + normal_mode(),
{
    v.push(UartAction::M0(false));
    v.push(UartAction::M1(false));
    v.push(UartAction::DelayMs(200));
    assert(views(v@) =~= views(old(v)@) + normal_mode());
}

/// Copies an array of twelve bytes.
fn to_vec(a: &[u8; 12]) -> (r: Vec<u8>)
    ensures
        r@ == a@,
{
    let mut v: Vec<u8> = Vec::new();
    let mut i: usize = 0;
    while i < 12
        invariant
            i <= 12,
            v@ == a@.take(i as int),
        decreases 12 - i,
    {
        v.push(a[i]);
        i += 1;
        assert(a@.take(i as int) =~= a@.take(i - 1).push(a@[i - 1]));
    }
    assert(a@.take(12) =~= a@);
    v
}

/// The module with the lines it is wired to.
pub struct Sx126xUart<UART, M0, M1, DELAY> {
    pub serial: UART,
    pub m0: M0,
    pub m1: M1,
    pub delay: DELAY,
    /// The configuration applied last.
    pub config: Config,
    /// The register image that the module reported last.
    pub last_configure_ack: [u8; 12],
}

/// The configuration of a module that was not configured yet.
pub open spec fn initial_config() -> Config {
    Config {
        freq_mhz: 868,
        addr: 0,
        net_id: 0,
        power: TxPower::Dbm22,
        air_speed: AirSpeed::Bps2400,
        buffer_size: BufferSize::Bytes240,
        rssi: false,
        crypt: 0,
    }
}

/// What `configure` does up to the module's answer.
pub open spec fn configure_plan(regs: Seq<u8>) -> Seq<UartActionView> {
    normal_mode() + config_mode() + seq![
        UartActionView::Drain,
        UartActionView::WriteAll(regs),
        UartActionView::ReadExact(IMAGE_LEN),
    ]
}

/// Whether two register images hold the same registers.
pub open spec fn same_registers(a: Seq<u8>, b: Seq<u8>) -> bool {
    a.skip(3) == b.skip(3)
}

/// The packet in received bytes: at most 240 are kept, and the last of them is
/// the signal strength where the module appends it.
pub open spec fn received(src: Seq<u8>, body: Seq<u8>, with_rssi: bool) -> packet::PacketView {
    let kept = if body.len() > 240 {
        body.take(240)
    } else {
        body
    };
    let has = with_rssi && kept.len() > 0;
    packet::PacketView {
        src_addr: (src[0] * 256 + src[1]) as u16,
        rssi: if has {
            Some((kept.last() - 256) as i16)
        } else {
            None
        },
        payload: if has {
            kept.drop_last()
        } else {
            kept
        },
    }
}

impl<UART, M0, M1, DELAY> Sx126xUart<UART, M0, M1, DELAY> {
    /// A module that was not configured yet.
    pub fn new(serial: UART, m0: M0, m1: M1, delay: DELAY) -> (r: Self)
        ensures
            r.serial == serial && r.m0 == m0 && r.m1 == m1 && r.delay == delay,
            r.config == initial_config(),
            r.last_configure_ack@ == Seq::new(12, |i: int| 0u8),
    {
        let r = Sx126xUart {
            serial,
            m0,
            m1,
            delay,
            last_configure_ack: [0u8; 12],
            config: Config {
                freq_mhz: 868,
                addr: 0,
                net_id: 0,
                power: TxPower::Dbm22,
                air_speed: AirSpeed::Bps2400,
                buffer_size: BufferSize::Bytes240,
                rssi: false,
                crypt: 0,
            },
        };
        assert(r.last_configure_ack@ =~= Seq::new(12, |i: int| 0u8));
        r
    }

    /// Takes over a configuration and gives the actions up to the module's
    /// answer, which `configured` judges. A frequency outside both bands is
    /// refused before anything is done.
    pub fn configure<E>(&mut self, config: &Config) -> (r: Result<Vec<UartAction>, Sx126xError<E>>)
        ensures
            config::channel(config.freq_mhz) matches Some(ch) ==> r is Ok,
            config::channel(config.freq_mhz) is None ==> r == Err::<Vec<UartAction>, Sx126xError<E>>(
                Sx126xError::InvalidConfig,
            ) && *final(self) == *old(self),
            r matches Ok(v) ==> {
                &&& config::channel(config.freq_mhz) matches Some(ch) && views(v@)
                    == configure_plan(config::registers(*config, ch))
                &&& *final(self) == (Sx126xUart { config: *config, ..*old(self) })
            },
    {
        let regs = match config.to_registers_checked() {
            Some(regs) => regs,
            None => return Err(Sx126xError::InvalidConfig),
        };
        self.config = *config;
        let mut v: Vec<UartAction> = Vec::new();
        push_normal_mode(&mut v);
        push_config_mode(&mut v);
        v.push(UartAction::Drain);
        v.push(UartAction::WriteAll(to_vec(&regs)));
        v.push(UartAction::ReadExact(IMAGE_LEN));
        assert(views(v@) =~= configure_plan(regs@));
        Ok(v)
    }

    /// Judges the module's answer to a configuration: anything but an answer
    /// counts as none. Gives the actions that return to normal operation.
    pub fn configured<E>(&mut self, ack: [u8; 12]) -> (r: Result<Vec<UartAction>, Sx126xError<E>>)
        ensures
            ack@[0] != ANSWER ==> r == Err::<Vec<UartAction>, Sx126xError<E>>(Sx126xError::Timeout)
                && *final(self) == *old(self),
            ack@[0] == ANSWER ==> r is Ok,
            r matches Ok(v) ==> {
                &&& views(v@) == normal_mode() + seq![UartActionView::Drain]
                &&& *final(self) == (Sx126xUart { last_configure_ack: ack, ..*old(self) })
            },
    {
        if ack[0] != ANSWER {
            return Err(Sx126xError::Timeout);
        }
        self.last_configure_ack = ack;
        let mut v: Vec<UartAction> = Vec::new();
        push_normal_mode(&mut v);
        v.push(UartAction::Drain);
        assert(views(v@) =~= normal_mode() + seq![UartActionView::Drain]);
        Ok(v)
    }

    /// The actions that read the module's registers; the answer has twelve
    /// bytes.
    pub fn read_config(&self) -> (r: Vec<UartAction>)
        ensures
            views(r@) == config_mode() + seq![
                UartActionView::Drain,
                UartActionView::WriteAll(seq![ANSWER, 0x00u8, 0x09u8]),
                UartActionView::ReadExact(IMAGE_LEN),
            ] + normal_mode(),
    {
        let mut v: Vec<UartAction> = Vec::new();
        push_config_mode(&mut v);
        let mut cmd: Vec<u8> = Vec::new();
        cmd.push(ANSWER);
        cmd.push(0x00);
        cmd.push(0x09);
        assert(cmd@ =~= seq![ANSWER, 0x00u8, 0x09u8]);
        v.push(UartAction::Drain);
        v.push(UartAction::WriteAll(cmd));
        v.push(UartAction::ReadExact(IMAGE_LEN));
        push_normal_mode(&mut v);
        assert(views(v@) =~= config_mode() + seq![
            UartActionView::Drain,
            UartActionView::WriteAll(seq![ANSWER, 0x00u8, 0x09u8]),
            UartActionView::ReadExact(IMAGE_LEN),
        ] + normal_mode());
        v
    }

    /// Whether the module, whose registers are `current`, has to be configured
    /// at all. Where it has not, its registers are kept as its last answer.
    pub fn configure_if_needed<E>(&mut self, config: &Config, current: [u8; 12]) -> (r: Result<
        bool,
        Sx126xError<E>,
    >)
        ensures
            config::channel(config.freq_mhz) is None ==> r == Err::<bool, Sx126xError<E>>(
                Sx126xError::InvalidConfig,
            ) && *final(self) == *old(self),
            config::channel(config.freq_mhz) matches Some(ch) ==> {
                let same = same_registers(current@, config::registers(*config, ch));
                &&& r == Ok::<bool, Sx126xError<E>>(!same)
                &&& *final(self) == if same {
                    Sx126xUart { last_configure_ack: current, ..*old(self) }
                } else {
                    *old(self)
                }
            },
    {
        let desired = match config.to_registers_checked() {
            Some(regs) => regs,
            None => return Err(Sx126xError::InvalidConfig),
        };
        let mut i: usize = 3;
        while i < 12
            invariant
                3 <= i <= 12,
                *self == *old(self),
                forall|j: int| 3 <= j < i ==> current@[j] == desired@[j],
                config::channel(config.freq_mhz) matches Some(ch) && desired@ == config::registers(
                    *config,
                    ch,
                ),
            decreases 12 - i,
        {
            if current[i] != desired[i] {
                assert(current@.skip(3)[i - 3] != desired@.skip(3)[i - 3]);
                return Ok(true);
            }
            i += 1;
        }
        assert(current@.skip(3) =~= desired@.skip(3));
        self.last_configure_ack = current;
        Ok(false)
    }

    /// The actions that send `payload`: the routing header that the module
    /// strips, the own address, the payload.
    pub fn send(&self, dest: u16, payload: &[u8]) -> (r: Vec<UartAction>)
        ensures
            views(r@) == normal_mode() + seq![
                UartActionView::WriteAll(
                    seq![
                        (dest / 256) as u8,
                        (dest % 256) as u8,
                        match config::channel(self.config.freq_mhz) {
                            Some(ch) => ch,
                            None => 0u8,
                        },
                    ],
                ),
                UartActionView::WriteAll(
                    seq![(self.config.addr / 256) as u8, (self.config.addr % 256) as u8],
                ),
                UartActionView::WriteAll(payload@),
                UartActionView::Flush,
            ],
    {
        let mut v: Vec<UartAction> = Vec::new();
        push_normal_mode(&mut v);
        let mut routing: Vec<u8> = Vec::new();
        routing.push((dest / 256) as u8);
        routing.push((dest % 256) as u8);
        routing.push(self.config.freq_offset_byte());
        let mut src: Vec<u8> = Vec::new();
        src.push((self.config.addr / 256) as u8);
        src.push((self.config.addr % 256) as u8);
        let mut body: Vec<u8> = Vec::new();
        body.extend_from_slice(payload);
        assert(body@ =~= payload@);
        assert(routing@ =~= seq![
            (dest / 256) as u8,
            (dest % 256) as u8,
            match config::channel(self.config.freq_mhz) {
                Some(ch) => ch,
                None => 0u8,
            },
        ]);
        assert(src@ =~= seq![(self.config.addr / 256) as u8, (self.config.addr % 256) as u8]);
        v.push(UartAction::WriteAll(routing));
        v.push(UartAction::WriteAll(src));
        v.push(UartAction::WriteAll(body));
        v.push(UartAction::Flush);
        assert(views(v@) =~= normal_mode() + seq![
            UartActionView::WriteAll(routing@),
            UartActionView::WriteAll(src@),
            UartActionView::WriteAll(payload@),
            UartActionView::Flush,
        ]);
        v
    }

    /// Starts to look for a packet: the two bytes of a sender's address are due.
    pub fn receive(&self) -> (r: Reception)
        ensures
            r@ == (ReceptionView { rssi: self.config.rssi, header: None, body: Seq::empty() }),
    {
        let r = Reception { rssi: self.config.rssi, header: None, body: Vec::new() };
        assert(r@.body =~= Seq::empty());
        r
    }
}

/// What a look at the port gave.
#[derive(Debug)]
pub enum PortRead<E> {
    /// The bytes that were due: two of the address, or one that follows.
    Bytes(Vec<u8>),
    /// The port had nothing more, or took too long.
    Nothing,
    /// The port failed.
    Failed(E),
}

/// A look at the port as a value.
pub enum PortReadView<E> {
    Bytes(Seq<u8>),
    Nothing,
    Failed(E),
}

impl<E> View for PortRead<E> {
    type V = PortReadView<E>;

    open spec fn view(&self) -> PortReadView<E> {
        match *self {
            PortRead::Bytes(b) => PortReadView::Bytes(b@),
            PortRead::Nothing => PortReadView::Nothing,
            PortRead::Failed(e) => PortReadView::Failed(e),
        }
    }
}

/// How a reception goes on.
#[derive(Debug)]
pub enum RxStep<E> {
    /// One more byte is due.
    More,
    Finished(Result<Option<ReceivedPacket>, Sx126xError<E>>),
}

/// A step of a reception as a value.
pub enum RxStepView<E> {
    More,
    Finished(Result<Option<packet::PacketView>, Sx126xError<E>>),
}

impl<E> View for RxStep<E> {
    type V = RxStepView<E>;

    open spec fn view(&self) -> RxStepView<E> {
        match *self {
            RxStep::More => RxStepView::More,
            RxStep::Finished(Ok(o)) => RxStepView::Finished(Ok(packet::opt_packet(o))),
            RxStep::Finished(Err(e)) => RxStepView::Finished(Err(e)),
        }
    }
}

/// A reception in progress.
#[derive(Debug)]
pub struct Reception {
    /// Whether the module appends the signal strength.
    pub rssi: bool,
    /// The sender's address, once it was read.
    pub header: Option<(u8, u8)>,
    /// What followed it so far.
    pub body: Vec<u8>,
}

/// A reception as a value.
pub struct ReceptionView {
    pub rssi: bool,
    pub header: Option<(u8, u8)>,
    pub body: Seq<u8>,
}

impl View for Reception {
    type V = ReceptionView;

    open spec fn view(&self) -> ReceptionView {
        ReceptionView { rssi: self.rssi, header: self.header, body: self.body@ }
    }
}

impl ReceptionView {
    /// How many bytes are due.
    pub open spec fn due(self) -> nat {
        if self.header is None {
            2
        } else {
            1
        }
    }

    /// The reception after a look at the port. A byte for which there is no
    /// room is dropped; silence ends the packet.
    pub open spec fn next<E>(self, got: PortReadView<E>) -> (ReceptionView, RxStepView<E>) {
        match got {
            PortReadView::Failed(e) => (self, RxStepView::Finished(Err(Sx126xError::Transport(e)))),
            PortReadView::Nothing => (
                self,
                RxStepView::Finished(
                    Ok(
                        match self.header {
                            Some(h) => Some(received(seq![h.0, h.1], self.body, self.rssi)),
                            None => None,
                        },
                    ),
                ),
            ),
            PortReadView::Bytes(b) => (
                match self.header {
                    None => ReceptionView { header: Some((b[0], b[1])), ..self },
                    Some(_) => ReceptionView {
                        body: if self.body.len() < 240 {
                            self.body.push(b[0])
                        } else {
                            self.body
                        },
                        ..self
                    },
                },
                RxStepView::More,
            ),
        }
    }

    /// The reception after bytes that came one by one.
    pub open spec fn fed(self, bytes: Seq<u8>) -> ReceptionView
        decreases bytes.len(),
    {
        if bytes.len() == 0 {
            self
        } else {
            self.fed(bytes.drop_last()).next::<()>(PortReadView::Bytes(seq![bytes.last()])).0
        }
    }
}

impl Reception {
    /// How many bytes are due.
    pub fn due(&self) -> (r: usize)
        ensures
            r == self@.due(),
    {
        if self.header.is_none() {
            2
        } else {
            1
        }
    }

    /// Takes what a look at the port gave.
    pub fn step<E>(&mut self, got: PortRead<E>) -> (r: RxStep<E>)
        requires
            got@ matches PortReadView::Bytes(b) ==> b.len() == old(self)@.due(),
        ensures
            (final(self)@, r@) == old(self)@.next(got@),
    {
        match got {
            PortRead::Failed(e) => RxStep::Finished(Err(Sx126xError::Transport(e))),
            PortRead::Nothing => RxStep::Finished(
                Ok(
                    match self.header {
                        Some(h) => {
                            let header: [u8; 2] = [h.0, h.1];
                            assert(header@ =~= seq![h.0, h.1]);
                            Some(self.packet(header))
                        },
                        None => None,
                    },
                ),
            ),
            PortRead::Bytes(b) => {
                if self.header.is_none() {
                    self.header = Some((b[0], b[1]));
                } else if self.body.len() < 240 {
                    self.body.push(b[0]);
                }
                RxStep::More
            },
        }
    }

    /// The packet in what the port gave.
    fn packet(&self, header: [u8; 2]) -> (r: ReceivedPacket)
        ensures
            r@ == received(header@, self@.body, self.rssi),
    {
        let body = self.body.as_slice();
        let src_addr: u16 = header[0] as u16 * 256 + header[1] as u16;
        let n: usize = if body.len() > 240 {
            240
        } else {
            body.len()
        };
        let kept = vstd::slice::slice_subrange(body, 0, n);
        assert(body@.len() <= 240 ==> kept@ =~= body@);
        assert(body@.len() > 240 ==> kept@ =~= body@.take(240));
        if self.rssi && n > 0 {
            let rssi: i16 = kept[n - 1] as i16 - 256;
            let front = vstd::slice::slice_subrange(kept, 0, n - 1);
            assert(front@ =~= kept@.drop_last());
            ReceivedPacket { src_addr, rssi: Some(rssi), payload: payload_from(front) }
        } else {
            ReceivedPacket { src_addr, rssi: None, payload: payload_from(kept) }
        }
    }
}

/// What came before the port fell silent is the packet, however its bytes were
/// read: the front of it where it was too long.
pub proof fn law_reception_ends_in_silence(rssi: bool, header: (u8, u8), bytes: Seq<u8>)
    ensures
        ({
            let v = ReceptionView { rssi, header: Some(header), body: Seq::empty() };
            v.fed(bytes).next::<()>(PortReadView::Nothing).1 == RxStepView::<()>::Finished(
                Ok(Some(received(seq![header.0, header.1], bytes, rssi))),
            )
        }),
{
    let v = ReceptionView { rssi, header: Some(header), body: Seq::empty() };
    lemma_fed(v, bytes);
    let kept = v.fed(bytes).body;
    if bytes.len() > 240 {
        assert(kept.len() == 240);
    }
}

/// What a reception holds after bytes that came one by one.
proof fn lemma_fed(v: ReceptionView, bytes: Seq<u8>)
    requires
        v.header is Some,
        v.body.len() == 0,
    ensures
        v.fed(bytes).header == v.header,
        v.fed(bytes).rssi == v.rssi,
        v.fed(bytes).body == if bytes.len() > 240 {
            bytes.take(240)
        } else {
            bytes
        },
    decreases bytes.len(),
{
    if bytes.len() == 0 {
        assert(v.body =~= bytes);
    } else {
        let front = bytes.drop_last();
        lemma_fed(v, front);
        if bytes.len() > 240 {
            assert(v.fed(bytes).body =~= bytes.take(240));
        } else {
            assert(v.fed(bytes).body =~= bytes);
        }
    }
}

/// What one module sends another hands out: the sender's address, its high byte
/// first, and the payload; where the receiver appends the signal strength, that
/// is the byte behind the payload, 256 above its value, and no part of it.
pub proof fn law_sent_is_handed_out(addr: u16, payload: Seq<u8>, strength: u8)
    ensures
        payload.len() <= 240 ==> ({
            let p = received(
                seq![(addr / 256) as u8, (addr % 256) as u8],
                payload,
                false,
            );
            p.src_addr == addr && p.payload == payload && p.rssi is None
        }),
        payload.len() <= 239 ==> ({
            let p = received(
                seq![(addr / 256) as u8, (addr % 256) as u8],
                payload.push(strength),
                true,
            );
            p.src_addr == addr && p.payload == payload && (p.rssi matches Some(dbm) && dbm
                == strength - 256)
        }),
{
    assert(payload.push(strength).drop_last() =~= payload);
}

/// A reception begins with the sender's address and goes on byte by byte; a port
/// that gives nothing before an address gave no packet, and its failure is told
/// as it is.
pub proof fn law_reception_step_by_step<E>(rssi: bool, a: u8, b: u8, e: E)
    ensures
        ({
            let v = ReceptionView { rssi, header: None, body: Seq::empty() };
            let w = v.next::<E>(PortReadView::Bytes(seq![a, b])).0;
            &&& v.due() == 2
            &&& v.next::<E>(PortReadView::Nothing).1 == RxStepView::<E>::Finished(Ok(None))
            &&& w.due() == 1
            &&& w.header == Some((a, b))
            &&& v.next::<E>(PortReadView::Failed(e)).1 == RxStepView::<E>::Finished(
                Err(Sx126xError::Transport(e)),
            )
        }),
{
}

/// The module is set up with its second mode pin high, and works with both low;
/// stale bytes are dropped before the registers are written, and its answer is
/// as long as what was written.
pub proof fn law_module_is_set_up_in_its_mode(regs: Seq<u8>)
    ensures
        ({
            let p = configure_plan(regs);
            &&& p.len() == 9
            &&& p[3] == UartActionView::M0(false)
            &&& p[4] == UartActionView::M1(true)
            &&& p[5] matches UartActionView::DelayMs(ms)
            &&& ms >= 500
            &&& p[6] is Drain
            &&& p[7] == UartActionView::WriteAll(regs)
            &&& p[8] == UartActionView::ReadExact(12)
            &&& normal_mode()[0] == UartActionView::M0(false)
            &&& normal_mode()[1] == UartActionView::M1(false)
        }),
{
}

/// A module needs no new configuration exactly where its nine registers are those
/// asked for; what leads them does not matter.
pub proof fn law_same_registers(a: Seq<u8>, b: Seq<u8>)
    requires
        a.len() == 12,
        b.len() == 12,
    ensures
        same_registers(a, b) <==> forall|i: int| 3 <= i < 12 ==> #[trigger] a[i] == b[i],
{
    if same_registers(a, b) {
        assert forall|i: int| 3 <= i < 12 implies #[trigger] a[i] == b[i] by {
            assert(a.skip(3)[i - 3] == b.skip(3)[i - 3]);
        }
    } else if forall|i: int| 3 <= i < 12 ==> #[trigger] a[i] == b[i] {
        assert(a.skip(3) =~= b.skip(3));
    }
}

} // verus!
