//! Modem configuration: register values and timing.

use vstd::prelude::*;

verus! {

/// Channel bandwidth.
#[derive(Debug, Clone, Copy, PartialEq, Eq, Structural)]
pub enum Bandwidth {
    Khz7_8,
    Khz10_4,
    Khz15_6,
    Khz20_8,
    Khz31_25,
    Khz41_7,
    Khz62_5,
    Khz125,
    Khz250,
    Khz500,
}

impl Bandwidth {
    /// Bandwidth in hertz.
    pub open spec fn in_hz(self) -> u32 {
        match self {
            Bandwidth::Khz7_8 => 7_800,
            Bandwidth::Khz10_4 => 10_400,
            Bandwidth::Khz15_6 => 15_600,
            Bandwidth::Khz20_8 => 20_800,
            Bandwidth::Khz31_25 => 31_250,
            Bandwidth::Khz41_7 => 41_700,
            Bandwidth::Khz62_5 => 62_500,
            Bandwidth::Khz125 => 125_000,
            Bandwidth::Khz250 => 250_000,
            Bandwidth::Khz500 => 500_000,
        }
    }

    /// Rank among the ten bandwidths, narrowest first.
    pub open spec fn rank(self) -> u8 {
        match self {
            Bandwidth::Khz7_8 => 0,
            Bandwidth::Khz10_4 => 1,
            Bandwidth::Khz15_6 => 2,
            Bandwidth::Khz20_8 => 3,
            Bandwidth::Khz31_25 => 4,
            Bandwidth::Khz41_7 => 5,
            Bandwidth::Khz62_5 => 6,
            Bandwidth::Khz125 => 7,
            Bandwidth::Khz250 => 8,
            Bandwidth::Khz500 => 9,
        }
    }

    /// Value of the bandwidth field of the modem configuration.
    pub fn register_value(self) -> (r: u8)
        ensures
            r == self.rank(),
    {
        match self {
            Bandwidth::Khz7_8 => 0x00,
            Bandwidth::Khz10_4 => 0x01,
            Bandwidth::Khz15_6 => 0x02,
            Bandwidth::Khz20_8 => 0x03,
            Bandwidth::Khz31_25 => 0x04,
            Bandwidth::Khz41_7 => 0x05,
            Bandwidth::Khz62_5 => 0x06,
            Bandwidth::Khz125 => 0x07,
            Bandwidth::Khz250 => 0x08,
            Bandwidth::Khz500 => 0x09,
        }
    }

    /// Bandwidth in hertz.
    pub fn hz(self) -> (r: u32)
        ensures
            r == self.in_hz(),
    {
        match self {
            Bandwidth::Khz7_8 => 7_800,
            Bandwidth::Khz10_4 => 10_400,
            Bandwidth::Khz15_6 => 15_600,
            Bandwidth::Khz20_8 => 20_800,
            Bandwidth::Khz31_25 => 31_250,
            Bandwidth::Khz41_7 => 41_700,
            Bandwidth::Khz62_5 => 62_500,
            Bandwidth::Khz125 => 125_000,
            Bandwidth::Khz250 => 250_000,
            Bandwidth::Khz500 => 500_000,
        }
    }

    /// The bandwidth of exactly `hz` hertz. Any other value is rejected
    /// rather than rounded.
    pub fn from_hz(hz: u32) -> (r: Option<Bandwidth>)
        ensures
            r matches Some(b) ==> b.in_hz() == hz,
            r is None ==> forall|b: Bandwidth| b.in_hz() != hz,
    {
        match hz {
            7_800 => Some(Bandwidth::Khz7_8),
            10_400 => Some(Bandwidth::Khz10_4),
            15_600 => Some(Bandwidth::Khz15_6),
            20_800 => Some(Bandwidth::Khz20_8),
            31_250 => Some(Bandwidth::Khz31_25),
            41_700 => Some(Bandwidth::Khz41_7),
            62_500 => Some(Bandwidth::Khz62_5),
            125_000 => Some(Bandwidth::Khz125),
            250_000 => Some(Bandwidth::Khz250),
            500_000 => Some(Bandwidth::Khz500),
            _ => None,
        }
    }
}

/// No two bandwidths have the same hertz value or register value, so
/// `from_hz` inverts `hz`.
pub proof fn law_bandwidths_differ(a: Bandwidth, b: Bandwidth)
    ensures
        a.in_hz() == b.in_hz() ==> a == b,
        a.rank() == b.rank() ==> a == b,
{
}

/// The ten register values follow the bandwidths from the narrowest up.
pub proof fn law_bandwidth_fields_follow_the_width(a: Bandwidth, b: Bandwidth)
    ensures
        a.rank() <= 9,
        a.rank() < b.rank() <==> a.in_hz() < b.in_hz(),
        7_800 <= a.in_hz() <= 500_000,
{
}

/// Forward error correction: four data bits in five to eight bits.
#[derive(Debug, Clone, Copy, PartialEq, Eq, Structural)]
pub enum CodingRate {
    Cr4_5,
    Cr4_6,
    Cr4_7,
    Cr4_8,
}

impl CodingRate {
    /// The second number of the rate.
    pub open spec fn den(self) -> u8 {
        match self {
            CodingRate::Cr4_5 => 5,
            CodingRate::Cr4_6 => 6,
            CodingRate::Cr4_7 => 7,
            CodingRate::Cr4_8 => 8,
        }
    }

    /// Value of the coding rate field of the modem configuration.
    pub fn register_value(self) -> (r: u8)
        ensures
            r == self.den() - 4,
    {
        match self {
            CodingRate::Cr4_5 => 0x01,
            CodingRate::Cr4_6 => 0x02,
            CodingRate::Cr4_7 => 0x03,
            CodingRate::Cr4_8 => 0x04,
        }
    }

    /// The "5" in "4/5".
    pub fn denominator(self) -> (r: u8)
        ensures
            r == self.den(),
    {
        match self {
            CodingRate::Cr4_5 => 5,
            CodingRate::Cr4_6 => 6,
            CodingRate::Cr4_7 => 7,
            CodingRate::Cr4_8 => 8,
        }
    }

    /// The rate with exactly this denominator.
    pub fn from_denominator(d: u8) -> (r: Option<CodingRate>)
        ensures
            r matches Some(c) ==> c.den() == d,
            r is None ==> forall|c: CodingRate| c.den() != d,
    {
        match d {
            5 => Some(CodingRate::Cr4_5),
            6 => Some(CodingRate::Cr4_6),
            7 => Some(CodingRate::Cr4_7),
            8 => Some(CodingRate::Cr4_8),
            _ => None,
        }
    }
}

/// No two coding rates have the same denominator, so `from_denominator`
/// inverts `denominator`.
pub proof fn law_coding_rates_differ(a: CodingRate, b: CodingRate)
    ensures
        a.den() == b.den() ==> a == b,
{
}

/// Settings of the modem.
#[derive(Debug, Clone, Copy, PartialEq, Eq, Structural)]
pub struct Config {
    pub freq_hz: u32,
    /// This node's own address, sent as a two-byte prefix of every payload,
    /// because raw LoRa has no addressing of its own.
    pub addr: u16,
    /// 7 to 12 on the air; 6 would need implicit headers.
    pub spreading_factor: u8,
    pub bandwidth: Bandwidth,
    pub coding_rate: CodingRate,
    pub sync_word: u8,
    pub preamble_len: u16,
    /// 2 to 20 dBm on the PA_BOOST path.
    pub tx_power_dbm: i8,
    pub crc_on: bool,
}

impl Default for Config {
    fn default() -> (r: Config)
        ensures
            r == default_config(),
    {
        Config {
            freq_hz: 433_000_000,
            addr: 0,
            spreading_factor: 7,
            bandwidth: Bandwidth::Khz125,
            coding_rate: CodingRate::Cr4_5,
            sync_word: 0x12,
            preamble_len: 8,
            tx_power_dbm: 17,
            crc_on: true,
        }
    }
}

/// The configuration that `Config::default` gives.
pub open spec fn default_config() -> Config {
    Config {
        freq_hz: 433_000_000,
        addr: 0,
        spreading_factor: 7,
        bandwidth: Bandwidth::Khz125,
        coding_rate: CodingRate::Cr4_5,
        sync_word: 0x12,
        preamble_len: 8,
        tx_power_dbm: 17,
        crc_on: true,
    }
}

/// Most bytes on the air: an address and a payload.
pub const FRAME_MAX: usize = 242;

/// `n` brought into `lo..=hi`.
pub open spec fn clamped(n: int, lo: int, hi: int) -> int {
    if n < lo {
        lo
    } else if n > hi {
        hi
    } else {
        n
    }
}

/// `a / b`, rounded up.
pub open spec fn ceil_div(a: int, b: int) -> int {
    (a + b - 1) / b
}

impl Config {
    /// The same settings at another spreading factor.
    pub open spec fn with_sf(self, sf: u8) -> Config {
        Config { spreading_factor: sf, ..self }
    }

    /// Symbol period in microseconds: `2^SF / BW`.
    pub open spec fn symbol_us(self) -> int {
        let chips = vstd::arithmetic::power2::pow2(self.spreading_factor as nat) as int;
        chips * 1_000_000 / (self.bandwidth.in_hz() as int)
    }

    /// Symbols longer than 16 ms need the low data rate optimisation.
    pub open spec fn slow(self) -> bool {
        self.symbol_us() > 16_000
    }

    /// Number of symbols that carry a payload of `len` bytes.
    pub open spec fn payload_symbols(self, len: int) -> int {
        let sf = self.spreading_factor as int;
        let num = 8 * len - 4 * sf + 28 + if self.crc_on {
            16int
        } else {
            0
        };
        let den = 4 * (sf - if self.slow() {
            2int
        } else {
            0
        });
        if num > 0 && den > 0 {
            8 + ceil_div(num, den) * self.coding_rate.den()
        } else {
            8
        }
    }

    /// Time on air in microseconds of a packet of `len` bytes: a preamble of
    /// `preamble_len + 4.25` symbols and the payload symbols.
    pub open spec fn airtime_us(self, len: int) -> int {
        (self.preamble_len * 4 + 17) * self.symbol_us() / 4 + self.payload_symbols(len)
            * self.symbol_us()
    }

    /// Bounds of the symbol period.
    pub proof fn lemma_symbol(self)
        requires
            self.spreading_factor <= 44,
        ensures
            1 <= vstd::arithmetic::power2::pow2(self.spreading_factor as nat) <= 0x1000_0000_0000,
            0 <= self.symbol_us() <= 0x10_0000_0000_0000,
    {
        vstd::arithmetic::power2::lemma_pow2_pos(self.spreading_factor as nat);
        vstd::arithmetic::power2::lemma2_to64_rest();
        if self.spreading_factor < 44 {
            vstd::arithmetic::power2::lemma_pow2_strictly_increases(
                self.spreading_factor as nat,
                44,
            );
        }
        match self.bandwidth {
            Bandwidth::Khz7_8 => {},
            Bandwidth::Khz10_4 => {},
            Bandwidth::Khz15_6 => {},
            Bandwidth::Khz20_8 => {},
            Bandwidth::Khz31_25 => {},
            Bandwidth::Khz41_7 => {},
            Bandwidth::Khz62_5 => {},
            Bandwidth::Khz125 => {},
            Bandwidth::Khz250 => {},
            Bandwidth::Khz500 => {},
        }
    }

    /// Bounds of the number of payload symbols and of their time on air.
    pub proof fn lemma_airtime(self, len: int)
        requires
            self.spreading_factor <= 44,
            0 <= len,
        ensures
            8 <= self.payload_symbols(len) <= 8 + 8 * (8 * len + 300),
            0 <= self.payload_symbols(len) * self.symbol_us() <= (8 + 8 * (8 * len + 300))
                * 0x10_0000_0000_0000,
            0 <= (self.preamble_len * 4 + 17) * self.symbol_us() <= 0x4_0011 * 0x10_0000_0000_0000,
    {
        self.lemma_symbol();
        let sf = self.spreading_factor as int;
        let num = 8 * len - 4 * sf + 28 + if self.crc_on {
            16int
        } else {
            0
        };
        let den = 4 * (sf - if self.slow() {
            2int
        } else {
            0
        });
        let k = self.coding_rate.den() as int;
        if num > 0 && den > 0 {
            let q = ceil_div(num, den);
            assert(0 <= q <= num + den) by (nonlinear_arith)
                requires
                    num > 0,
                    den > 0,
                    q == (num + den - 1) / den,
            ;
            assert(0 <= q * k <= 8 * (8 * len + 300)) by (nonlinear_arith)
                requires
                    0 <= q <= 8 * len + 300,
                    5 <= k <= 8,
            ;
        }
        let n = self.payload_symbols(len);
        let ts = self.symbol_us();
        assert(0 <= n * ts <= (8 + 8 * (8 * len + 300)) * 0x10_0000_0000_0000) by (nonlinear_arith)
            requires
                8 <= n <= 8 + 8 * (8 * len + 300),
                0 <= ts <= 0x10_0000_0000_0000,
        ;
        let p = self.preamble_len * 4 + 17;
        assert(0 <= p * ts <= 0x4_0011 * 0x10_0000_0000_0000) by (nonlinear_arith)
            requires
                0 <= p <= 0x4_0011,
                0 <= ts <= 0x10_0000_0000_0000,
        ;
    }

    /// Whether all timing of packets of up to `FRAME_MAX` bytes fits in 64
    /// bits of microseconds.
    pub open spec fn timing_fits(self) -> bool {
        &&& self.spreading_factor <= 44
        &&& self.airtime_us(FRAME_MAX as int) * 2 <= u64::MAX
    }

    /// Spreading factors up to 32, far beyond what the modem has, leave room
    /// for all timing.
    pub proof fn lemma_timing_fits(self)
        requires
            self.spreading_factor <= 32,
        ensures
            self.timing_fits(),
    {
        self.lemma_airtime(FRAME_MAX as int);
        vstd::arithmetic::power2::lemma2_to64();
        if self.spreading_factor < 32 {
            vstd::arithmetic::power2::lemma_pow2_strictly_increases(
                self.spreading_factor as nat,
                32,
            );
        }
        let ts = self.symbol_us();
        match self.bandwidth {
            Bandwidth::Khz7_8 => {},
            Bandwidth::Khz10_4 => {},
            Bandwidth::Khz15_6 => {},
            Bandwidth::Khz20_8 => {},
            Bandwidth::Khz31_25 => {},
            Bandwidth::Khz41_7 => {},
            Bandwidth::Khz62_5 => {},
            Bandwidth::Khz125 => {},
            Bandwidth::Khz250 => {},
            Bandwidth::Khz500 => {},
        }
        assert(ts <= 600_000_000_000);
        let n = self.payload_symbols(FRAME_MAX as int);
        assert(n * ts <= 20_000 * 600_000_000_000) by (nonlinear_arith)
            requires
                0 <= n <= 20_000,
                0 <= ts <= 600_000_000_000,
        ;
        let p = self.preamble_len * 4 + 17;
        assert(p * ts <= 300_000 * 600_000_000_000) by (nonlinear_arith)
            requires
                0 <= p <= 300_000,
                0 <= ts <= 600_000_000_000,
        ;
    }

    /// Whether the spreading factor leaves room for all timing.
    pub fn has_room(&self) -> (r: bool)
        ensures
            r == (self.spreading_factor <= 32),
            r ==> self.timing_fits(),
    {
        proof {
            if self.spreading_factor <= 32 {
                self.lemma_timing_fits();
            }
        }
        self.spreading_factor <= 32
    }

    /// Carrier frequency register: `freq * 2^19 / 32 MHz`.
    pub fn frf_register(&self) -> (r: u32)
        ensures
            r == self.freq_hz * 524_288 / 32_000_000,
    {
        (self.freq_hz as u64 * 524_288 / 32_000_000) as u32
    }

    /// Values of RegPaConfig and RegPaDac on the PA_BOOST path: 2 to 17 dBm
    /// directly, more with the high-power setting.
    pub fn pa_config_bytes(&self) -> (r: (u8, u8))
        ensures
            r == ({
                let dbm = clamped(self.tx_power_dbm as int, 2, 20);
                if dbm > 17 {
                    (0x8Fu8, 0x87u8)
                } else {
                    ((0x80 + (dbm - 2)) as u8, 0x84u8)
                }
            }),
    {
        let dbm: i8 = if self.tx_power_dbm < 2 {
            2
        } else if self.tx_power_dbm > 20 {
            20
        } else {
            self.tx_power_dbm
        };
        if dbm > 17 {
            (0x8F, 0x87)
        } else {
            (0x80 + (dbm - 2) as u8, 0x84)
        }
    }

    /// Symbol period in microseconds.
    pub fn symbol_period_us(&self) -> (r: u64)
        requires
            self.spreading_factor <= 44,
        ensures
            r == self.symbol_us(),
    {
        proof {
            self.lemma_symbol();
            vstd::bits::lemma_u64_shl_is_mul(1, self.spreading_factor as u64);
        }
        (1u64 << (self.spreading_factor as u64)) * 1_000_000 / self.bandwidth.hz() as u64
    }

    /// Whether symbols are so long that the modem needs its low data rate
    /// optimisation.
    pub fn low_data_rate_optimize(&self) -> (r: bool)
        requires
            self.spreading_factor <= 44,
        ensures
            r == self.slow(),
    {
        self.symbol_period_us() > 16_000
    }

    /// How long to wait for channel activity detection: three symbol periods,
    /// where one and a half to two are needed.
    pub fn cad_timeout_us(&self) -> (r: u32)
        requires
            self.spreading_factor <= 44,
        ensures
            r == clamped(self.symbol_us() * 3, 0, u32::MAX as int),
    {
        proof {
            self.lemma_symbol();
        }
        let t: u64 = self.symbol_period_us() * 3;
        if t > u32::MAX as u64 {
            u32::MAX
        } else {
            t as u32
        }
    }

    /// Time on air of a packet of `payload_len` bytes, in microseconds.
    pub fn tx_airtime_us(&self, payload_len: usize) -> (r: u64)
        requires
            self.spreading_factor <= 44,
            self.airtime_us(payload_len as int) <= u64::MAX,
        ensures
            r == self.airtime_us(payload_len as int),
    {
        proof {
            self.lemma_symbol();
            self.lemma_airtime(payload_len as int);
        }
        let ts: u128 = self.symbol_period_us() as u128;
        let sf: i128 = self.spreading_factor as i128;
        let de: i128 = if self.low_data_rate_optimize() {
            2
        } else {
            0
        };
        let crc: i128 = if self.crc_on {
            16
        } else {
            0
        };
        let preamble: u128 = (self.preamble_len as u128 * 4 + 17) * ts / 4;
        let num: i128 = 8 * payload_len as i128 - 4 * sf + 28 + crc;
        let den: i128 = 4 * (sf - de);
        let symbols: i128 = if num > 0 && den > 0 {
            8 + (num + den - 1) / den * self.coding_rate.denominator() as i128
        } else {
            8
        };
        (preamble + symbols as u128 * ts) as u64
    }

    /// How long to wait for a transmission of `payload_len` bytes to finish:
    /// twice its time on air.
    pub fn tx_timeout_us(&self, payload_len: usize) -> (r: u32)
        requires
            self.spreading_factor <= 44,
            self.airtime_us(payload_len as int) * 2 <= u64::MAX,
        ensures
            r == clamped(self.airtime_us(payload_len as int) * 2, 0, u32::MAX as int),
    {
        proof {
            self.lemma_symbol();
            self.lemma_airtime(payload_len as int);
        }
        let t: u64 = self.tx_airtime_us(payload_len) * 2;
        if t > u32::MAX as u64 {
            u32::MAX
        } else {
            t as u32
        }
    }

    /// Values of RegDetectionOptimize and RegDetectionThreshold.
    pub fn detection_registers(&self) -> (r: (u8, u8))
        ensures
            r == if self.spreading_factor == 6 {
                (0x05u8, 0x0Cu8)
            } else {
                (0x03u8, 0x0Au8)
            },
    {
        if self.spreading_factor == 6 {
            (0x05, 0x0C)
        } else {
            (0x03, 0x0A)
        }
    }
}

/// A longer packet is never sooner off the air.
pub proof fn law_airtime_grows_with_length(c: Config, a: int, b: int)
    requires
        c.spreading_factor <= 44,
        0 <= a <= b,
    ensures
        c.airtime_us(a) <= c.airtime_us(b),
{
    c.lemma_symbol();
    c.lemma_airtime(a);
    c.lemma_airtime(b);
    let sf = c.spreading_factor as int;
    let crc = if c.crc_on {
        16int
    } else {
        0
    };
    let den = 4 * (sf - if c.slow() {
        2int
    } else {
        0
    });
    let na = 8 * a - 4 * sf + 28 + crc;
    let nb = 8 * b - 4 * sf + 28 + crc;
    let k = c.coding_rate.den() as int;
    if na > 0 && den > 0 {
        vstd::arithmetic::div_mod::lemma_div_is_ordered(na + den - 1, nb + den - 1, den);
        let qa = ceil_div(na, den);
        let qb = ceil_div(nb, den);
        assert(qa * k <= qb * k) by (nonlinear_arith)
            requires
                qa <= qb,
                5 <= k,
        ;
    }
    let sa = c.payload_symbols(a);
    let sb = c.payload_symbols(b);
    let ts = c.symbol_us();
    assert(sa * ts <= sb * ts) by (nonlinear_arith)
        requires
            sa <= sb,
            0 <= ts,
    ;
}

/// The quotient rounded up is the least number of whole parts that reaches.
proof fn lemma_ceil_div(a: int, b: int)
    requires
        a > 0,
        b > 0,
    ensures
        ceil_div(a, b) >= 1,
        ceil_div(a, b) * b >= a,
        (ceil_div(a, b) - 1) * b < a,
{
    let q = ceil_div(a, b);
    assert(q >= 1 && q * b >= a && (q - 1) * b < a) by (nonlinear_arith)
        requires
            a > 0,
            b > 0,
            q == (a + b - 1) / b,
    ;
}

/// One spreading factor more doubles the symbol period at least.
proof fn lemma_symbol_doubles(c: Config)
    requires
        7 <= c.spreading_factor < 12,
    ensures
        256 <= c.symbol_us(),
        2 * c.symbol_us() <= c.with_sf((c.spreading_factor + 1) as u8).symbol_us(),
{
    let sf = c.spreading_factor as nat;
    vstd::arithmetic::power2::lemma2_to64();
    if sf > 7 {
        vstd::arithmetic::power2::lemma_pow2_strictly_increases(7, sf);
    }
    vstd::arithmetic::power2::lemma_pow2_unfold(sf + 1);
    match c.bandwidth {
        Bandwidth::Khz7_8 => {},
        Bandwidth::Khz10_4 => {},
        Bandwidth::Khz15_6 => {},
        Bandwidth::Khz20_8 => {},
        Bandwidth::Khz31_25 => {},
        Bandwidth::Khz41_7 => {},
        Bandwidth::Khz62_5 => {},
        Bandwidth::Khz125 => {},
        Bandwidth::Khz250 => {},
        Bandwidth::Khz500 => {},
    }
}

/// One spreading factor more does not halve the number of payload symbols.
proof fn lemma_symbols_not_halved(c: Config, len: int)
    requires
        7 <= c.spreading_factor < 12,
        0 <= len,
    ensures
        c.payload_symbols(len) <= 2 * c.with_sf((c.spreading_factor + 1) as u8).payload_symbols(
            len,
        ),
{
    let d = c.with_sf((c.spreading_factor + 1) as u8);
    lemma_symbol_doubles(c);
    let sf = c.spreading_factor as int;
    let crc = if c.crc_on {
        16int
    } else {
        0
    };
    let n1 = 8 * len - 4 * sf + 28 + crc;
    let n2 = n1 - 4;
    let d1 = 4 * (sf - if c.slow() {
        2int
    } else {
        0
    });
    let d2 = 4 * (sf + 1 - if d.slow() {
        2int
    } else {
        0
    });
    let k = c.coding_rate.den() as int;
    if n1 > 0 {
        lemma_ceil_div(n1, d1);
        let q1 = ceil_div(n1, d1);
        if n2 > 0 {
            lemma_ceil_div(n2, d2);
            let q2 = ceil_div(n2, d2);
            assert(q1 <= 2 * q2 + 1) by (nonlinear_arith)
                requires
                    20 <= d1,
                    d2 <= d1 + 4,
                    1 <= q2,
                    q2 * d2 >= n1 - 4,
                    (q1 - 1) * d1 < n1,
            ;
            assert(8 + q1 * k <= 2 * (8 + q2 * k)) by (nonlinear_arith)
                requires
                    q1 <= 2 * q2 + 1,
                    5 <= k <= 8,
            ;
        } else {
            assert(q1 <= 1) by (nonlinear_arith)
                requires
                    20 <= d1,
                    n1 <= 4,
                    (q1 - 1) * d1 < n1,
            ;
            assert(q1 * k <= 8) by (nonlinear_arith)
                requires
                    q1 <= 1,
                    5 <= k <= 8,
            ;
        }
    }
}

/// A packet takes longer at a higher spreading factor.
pub proof fn law_airtime_grows_with_spreading_factor(c: Config, sf: u8, len: int)
    requires
        7 <= c.spreading_factor < sf <= 12,
        0 <= len,
    ensures
        c.airtime_us(len) < c.with_sf(sf).airtime_us(len),
    decreases sf - c.spreading_factor,
{
    let d = c.with_sf((c.spreading_factor + 1) as u8);
    lemma_symbol_doubles(c);
    lemma_symbols_not_halved(c, len);
    c.lemma_airtime(len);
    let t1 = c.symbol_us();
    let t2 = d.symbol_us();
    let s1 = c.payload_symbols(len);
    let s2 = d.payload_symbols(len);
    let p = c.preamble_len * 4 + 17;
    assert(s1 * t1 <= s2 * t2) by (nonlinear_arith)
        requires
            s1 <= 2 * s2,
            8 <= s1,
            2 * t1 <= t2,
            256 <= t1,
    ;
    assert(p * t1 + 17 * 256 <= p * t2) by (nonlinear_arith)
        requires
            17 <= p,
            2 * t1 <= t2,
            256 <= t1,
    ;
    assert(c.airtime_us(len) < d.airtime_us(len));
    if d.spreading_factor < sf {
        law_airtime_grows_with_spreading_factor(d, sf, len);
        assert(d.with_sf(sf) == c.with_sf(sf));
    } else {
        assert(d == c.with_sf(sf));
    }
}

/// A symbol takes as many microseconds as `2^SF` chips take at one chip for each
/// hertz of bandwidth, rounded down.
pub proof fn law_symbol_is_its_chips(c: Config)
    ensures
        c.symbol_us() * c.bandwidth.in_hz() <= vstd::arithmetic::power2::pow2(
            c.spreading_factor as nat,
        ) * 1_000_000 < (c.symbol_us() + 1) * c.bandwidth.in_hz(),
{
    let n = vstd::arithmetic::power2::pow2(c.spreading_factor as nat) as int * 1_000_000;
    let hz = c.bandwidth.in_hz() as int;
    let q = c.symbol_us();
    assert(q * hz <= n < (q + 1) * hz) by (nonlinear_arith)
        requires
            hz > 0,
            q == n / hz,
    ;
}

/// A packet takes its preamble, four and a quarter symbols, and its payload
/// symbols, rounded down by less than one microsecond. The payload takes eight
/// symbols and the fewest whole blocks of the coding rate that hold its bits:
/// eight for each byte, 28 for the header, 16 for the checksum, less four for
/// each step of the spreading factor, at four bits for each step, of which two
/// are lost with the low data rate optimisation.
pub proof fn law_airtime_is_its_symbols(c: Config, len: int)
    requires
        3 <= c.spreading_factor <= 44,
        0 <= len,
    ensures
        ({
            let quarters = 4 * c.preamble_len + 17 + 4 * c.payload_symbols(len);
            4 * c.airtime_us(len) <= quarters * c.symbol_us() < 4 * c.airtime_us(len) + 4
        }),
        ({
            let bits = 8 * len + 28 + (if c.crc_on {
                16int
            } else {
                0
            }) - 4 * c.spreading_factor;
            let block = 4 * (c.spreading_factor - (if c.slow() {
                2int
            } else {
                0
            }));
            let extra = c.payload_symbols(len) - 8;
            let den = c.coding_rate.den() as int;
            let blocks = extra / den;
            &&& extra == blocks * den
            &&& bits <= 0 ==> extra == 0
            &&& bits > 0 ==> (blocks - 1) * block < bits <= blocks * block
        }),
{
    let ts = c.symbol_us();
    let n = c.payload_symbols(len);
    let p = (c.preamble_len * 4 + 17) * ts;
    assert((c.preamble_len * 4 + 17 + 4 * n) * ts == p + 4 * (n * ts)) by (nonlinear_arith)
        requires
            p == (c.preamble_len * 4 + 17) * ts,
    ;
    let num = 8 * len - 4 * c.spreading_factor + 28 + if c.crc_on {
        16int
    } else {
        0
    };
    let block = 4 * (c.spreading_factor - if c.slow() {
        2int
    } else {
        0
    });
    let den = c.coding_rate.den() as int;
    let blocks = if num > 0 {
        ceil_div(num, block)
    } else {
        0
    };
    assert(n - 8 == blocks * den);
    assert((blocks * den) / den == blocks) by (nonlinear_arith)
        requires
            den > 0,
    ;
    if num > 0 {
        assert((blocks - 1) * block < num <= blocks * block) by (nonlinear_arith)
            requires
                block > 0,
                blocks == (num + block - 1) / block,
        ;
    }
}

} // verus!
