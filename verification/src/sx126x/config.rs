//! Module configuration and its register image.

use vstd::prelude::*;

verus! {

/// Transmit power.
#[derive(Debug, Clone, Copy, PartialEq, Eq, Structural)]
pub enum TxPower {
    Dbm22,
    Dbm17,
    Dbm13,
    Dbm10,
}

impl TxPower {
    /// Value of the power field.
    pub open spec fn field(self) -> u8 {
        match self {
            TxPower::Dbm22 => 0x00,
            TxPower::Dbm17 => 0x01,
            TxPower::Dbm13 => 0x02,
            TxPower::Dbm10 => 0x03,
        }
    }

    /// Power in dBm.
    pub open spec fn in_dbm(self) -> u8 {
        match self {
            TxPower::Dbm22 => 22,
            TxPower::Dbm17 => 17,
            TxPower::Dbm13 => 13,
            TxPower::Dbm10 => 10,
        }
    }

    /// Value of the power field.
    pub fn register_value(self) -> (r: u8)
        ensures
            r == self.field(),
    {
        match self {
            TxPower::Dbm22 => 0x00,
            TxPower::Dbm17 => 0x01,
            TxPower::Dbm13 => 0x02,
            TxPower::Dbm10 => 0x03,
        }
    }

    /// Power in dBm.
    pub fn dbm(self) -> (r: u8)
        ensures
            r == self.in_dbm(),
    {
        match self {
            TxPower::Dbm22 => 22,
            TxPower::Dbm17 => 17,
            TxPower::Dbm13 => 13,
            TxPower::Dbm10 => 10,
        }
    }
}

/// Rate on the air.
#[derive(Debug, Clone, Copy, PartialEq, Eq, Structural)]
pub enum AirSpeed {
    Bps1200,
    Bps2400,
    Bps4800,
    Bps9600,
    Bps19200,
    Bps38400,
    Bps62500,
}

impl AirSpeed {
    /// Value of the rate field.
    pub open spec fn field(self) -> u8 {
        match self {
            AirSpeed::Bps1200 => 0x01,
            AirSpeed::Bps2400 => 0x02,
            AirSpeed::Bps4800 => 0x03,
            AirSpeed::Bps9600 => 0x04,
            AirSpeed::Bps19200 => 0x05,
            AirSpeed::Bps38400 => 0x06,
            AirSpeed::Bps62500 => 0x07,
        }
    }

    /// Rate in bits per second.
    pub open spec fn bps(self) -> u32 {
        match self {
            AirSpeed::Bps1200 => 1200,
            AirSpeed::Bps2400 => 2400,
            AirSpeed::Bps4800 => 4800,
            AirSpeed::Bps9600 => 9600,
            AirSpeed::Bps19200 => 19200,
            AirSpeed::Bps38400 => 38400,
            AirSpeed::Bps62500 => 62500,
        }
    }

    /// Value of the rate field.
    pub fn register_value(self) -> (r: u8)
        ensures
            r == self.field(),
    {
        match self {
            AirSpeed::Bps1200 => 0x01,
            AirSpeed::Bps2400 => 0x02,
            AirSpeed::Bps4800 => 0x03,
            AirSpeed::Bps9600 => 0x04,
            AirSpeed::Bps19200 => 0x05,
            AirSpeed::Bps38400 => 0x06,
            AirSpeed::Bps62500 => 0x07,
        }
    }
}

/// Size of the module's packet buffer.
#[derive(Debug, Clone, Copy, PartialEq, Eq, Structural)]
pub enum BufferSize {
    Bytes240,
    Bytes128,
    Bytes64,
    Bytes32,
}

impl BufferSize {
    /// Value of the buffer field.
    pub open spec fn field(self) -> u8 {
        match self {
            BufferSize::Bytes240 => 0x00,
            BufferSize::Bytes128 => 0x40,
            BufferSize::Bytes64 => 0x80,
            BufferSize::Bytes32 => 0xC0,
        }
    }

    /// Value of the buffer field.
    pub fn register_value(self) -> (r: u8)
        ensures
            r == self.field(),
    {
        match self {
            BufferSize::Bytes240 => 0x00,
            BufferSize::Bytes128 => 0x40,
            BufferSize::Bytes64 => 0x80,
            BufferSize::Bytes32 => 0xC0,
        }
    }
}

/// Settings of a module.
#[derive(Debug, Clone, Copy, PartialEq, Eq, Structural)]
pub struct Config {
    /// 410 to 493 or 850 to 930.
    pub freq_mhz: u32,
    pub addr: u16,
    pub net_id: u8,
    pub power: TxPower,
    pub air_speed: AirSpeed,
    pub buffer_size: BufferSize,
    /// Whether the module appends the signal strength to what it received.
    pub rssi: bool,
    pub crypt: u16,
}

/// The channel of a frequency: its distance from the start of its band.
pub open spec fn channel(freq_mhz: u32) -> Option<u8> {
    if 850 <= freq_mhz <= 930 {
        Some((freq_mhz - 850) as u8)
    } else if 410 <= freq_mhz <= 493 {
        Some((freq_mhz - 410) as u8)
    } else {
        None
    }
}

/// The twelve bytes that write a configuration: a three-byte header and nine
/// registers.
pub open spec fn registers(c: Config, channel: u8) -> Seq<u8> {
    seq![
        0xC0u8,
        0x00u8,
        0x09u8,
        (c.addr / 256) as u8,
        (c.addr % 256) as u8,
        c.net_id,
        (0x60 + c.air_speed.field()) as u8,
        (c.buffer_size.field() + c.power.field()) as u8,
        channel,
        if c.rssi {
            0xC0u8
        } else {
            0x40u8
        },
        (c.crypt / 256) as u8,
        (c.crypt % 256) as u8,
    ]
}

impl Config {
    /// The start of the band of a frequency and the channel in it.
    pub fn freq_offset(freq_mhz: u32) -> (r: Option<(u32, u8)>)
        ensures
            r matches Some((start, offset)) ==> channel(freq_mhz) == Some(offset) && freq_mhz
                == start + offset && (start == 850 || start == 410),
            r is None ==> channel(freq_mhz) is None,
    {
        if freq_mhz >= 850 && freq_mhz <= 930 {
            Some((850, (freq_mhz - 850) as u8))
        } else if freq_mhz >= 410 && freq_mhz <= 493 {
            Some((410, (freq_mhz - 410) as u8))
        } else {
            None
        }
    }

    /// The register image of a configuration with a supported frequency.
    pub fn to_registers(&self) -> (r: [u8; 12])
        requires
            channel(self.freq_mhz) is Some,
        ensures
            channel(self.freq_mhz) matches Some(ch) && r@ == registers(*self, ch),
    {
        match self.to_registers_checked() {
            Some(r) => r,
            None => [0u8; 12],
        }
    }

    /// The register image; `None` for a frequency outside both bands.
    pub fn to_registers_checked(&self) -> (r: Option<[u8; 12]>)
        ensures
            r matches Some(regs) ==> channel(self.freq_mhz) matches Some(ch) && regs@ == registers(
                *self,
                ch,
            ),
            r is None ==> channel(self.freq_mhz) is None,
    {
        let offset: u8 = match Config::freq_offset(self.freq_mhz) {
            Some((_, offset)) => offset,
            None => return None,
        };
        let option: u8 = if self.rssi {
            0xC0
        } else {
            0x40
        };
        let regs: [u8; 12] = [
            0xC0,
            0x00,
            0x09,
            (self.addr / 256) as u8,
            (self.addr % 256) as u8,
            self.net_id,
            0x60 + self.air_speed.register_value(),
            self.buffer_size.register_value() + self.power.register_value(),
            offset,
            option,
            (self.crypt / 256) as u8,
            (self.crypt % 256) as u8,
        ];
        assert(regs@ =~= registers(*self, offset));
        Some(regs)
    }

    /// The channel of the frequency, or 0 where it is not supported.
    pub fn freq_offset_byte(&self) -> (r: u8)
        ensures
            r == (match channel(self.freq_mhz) {
                Some(ch) => ch,
                None => 0u8,
            }),
    {
        match Config::freq_offset(self.freq_mhz) {
            Some((_, offset)) => offset,
            None => 0,
        }
    }
}

/// Equal register images mean equal settings, but for the band of the
/// frequency, which the channel alone does not tell.
pub proof fn law_registers_determine_settings(a: Config, b: Config, ca: u8, cb: u8)
    requires
        channel(a.freq_mhz) == Some(ca),
        channel(b.freq_mhz) == Some(cb),
        registers(a, ca) == registers(b, cb),
    ensures
        b == (Config { freq_mhz: b.freq_mhz, ..a }),
        ca == cb,
        (a.freq_mhz >= 850) == (b.freq_mhz >= 850) ==> a == b,
{
    let ra = registers(a, ca);
    let rb = registers(b, cb);
    assert(ra[3] == rb[3] && ra[4] == rb[4] && ra[5] == rb[5] && ra[6] == rb[6] && ra[7] == rb[7]);
    assert(ra[8] == rb[8] && ra[9] == rb[9] && ra[10] == rb[10] && ra[11] == rb[11]);
}

/// The image writes nine registers from the first on, and holds the settings:
/// address and key with the high byte first, the network, the frequency as its
/// distance in megahertz from the start of its band, and whether the signal
/// strength is appended in the highest bit of its register.
pub proof fn law_registers_hold_the_settings(c: Config, ch: u8)
    requires
        channel(c.freq_mhz) == Some(ch),
    ensures
        ({
            let r = registers(c, ch);
            &&& r.len() == 12
            &&& r[0] == 0xC0 && r[1] == 0 && r[2] == 9
            &&& r[3] * 256 + r[4] == c.addr
            &&& r[5] == c.net_id
            &&& r[6] / 32 == 3
            &&& r[6] % 8 == c.air_speed.field()
            &&& r[7] / 64 == c.buffer_size.field() / 64
            &&& r[7] % 4 == c.power.field()
            &&& c.freq_mhz == r[8] + (if c.freq_mhz >= 850 {
                850int
            } else {
                410
            })
            &&& c.rssi <==> r[9] >= 128
            &&& r[9] % 128 == 0x40
            &&& r[10] * 256 + r[11] == c.crypt
        }),
        410 <= c.freq_mhz <= 493 || 850 <= c.freq_mhz <= 930,
{
}

/// The fields follow what they stand for: more power and a larger buffer have
/// smaller values, a faster rate a larger one.
pub proof fn law_fields_follow_the_values(
    p: TxPower,
    q: TxPower,
    a: AirSpeed,
    b: AirSpeed,
)
    ensures
        p.field() <= 3,
        p.field() < q.field() <==> p.in_dbm() > q.in_dbm(),
        1 <= a.field() <= 7,
        a.field() < b.field() <==> a.bps() < b.bps(),
{
}

/// A frequency has a channel exactly in the two bands, and there is one for every
/// megahertz.
pub proof fn law_channels_of_a_band_differ(a: u32, b: u32)
    ensures
        channel(a) is Some <==> 410 <= a <= 493 || 850 <= a <= 930,
        channel(a) is Some && channel(a) == channel(b) && a != b ==> a + 440 == b || b + 440 == a,
{
}

} // verus!
