//! Modulation parameters of the LoRa node and what they mean in time.

use vstd::arithmetic::power2::{lemma2_to64, lemma_pow2_strictly_increases, pow2};
use vstd::bits::lemma_u64_shl_is_mul;
use vstd::prelude::*;

verus! {

/// Longest frame delivered to the host.
pub const RX_MAX: usize = 247;
/// Longest frame the receiver accepts.
pub const RX_BUF: usize = 255;
/// Ticks of the node's clock per second.
pub const STAMP_HZ: u32 = 1_000_000;
/// One clock tick, in nanoseconds.
pub const TICK_NS: u32 = 1_000;
/// Clock of the radio's bus, in Hz.
pub const SPI_HZ: u32 = 2_000_000;
/// Bytes that key the transmitter.
pub const KEYUP_BYTES: u32 = 2;
/// Bus time of those bytes, in nanoseconds.
pub const KEYUP_SPI_NS: u32 = 8_000;
/// Ramp of the power amplifier, in nanoseconds.
pub const PA_RAMP_NS: u32 = 40_000;
/// Slack for the executor, in nanoseconds.
pub const SCHED_SLACK_NS: u32 = 50_000;
/// Placement granularity this node declares, in nanoseconds.
pub const SCHED_GRAN_NS: u32 = TICK_NS + KEYUP_SPI_NS + PA_RAMP_NS + SCHED_SLACK_NS;
/// Fixed time to stage a frame, in microseconds.
pub const STAGE_FIXED_US: u64 = 1_500;
/// Time to stage one byte, in microseconds.
pub const STAGE_PER_BYTE_US: u64 = 5;
/// Furthest a transmission can be scheduled ahead, in microseconds.
pub const SCHED_MAX_DELAY_US: u32 = 60_000_000;
/// Mean round trip of the serial link, in microseconds.
pub const SERIAL_RTT_MEAN_US: u32 = 10_733;

/// The LoRa modem.
pub const PHY_LORA: u8 = 0x0;
/// Modems this node runs, one bit each.
pub const PHY_BITMAP: u32 = 1;
/// The modem in use.
pub const PHY_CURRENT: u8 = PHY_LORA;

/// Least and greatest spreading factor.
pub const SF_MIN: u8 = 7;
pub const SF_MAX: u8 = 12;
/// Band edges, in Hz.
pub const FREQ_MIN_HZ: u32 = 902_000_000;
pub const FREQ_MAX_HZ: u32 = 928_000_000;
/// Power range, in dBm.
pub const PWR_MIN_DBM: i8 = 2;
pub const PWR_MAX_DBM: i8 = 20;

/// The bandwidth of a wire code: the fleet's 0 to 2, the older 4 to 6, 125 kHz for anything else.
pub open spec fn bandwidth(code: u8) -> u32 {
    if code == 1 || code == 5 {
        250_000
    } else if code == 2 || code == 6 {
        500_000
    } else {
        125_000
    }
}

/// The bandwidth of a wire code, in Hz.
pub fn bw_hz_of_code(code: u8) -> (hz: u32)
    ensures
        hz == bandwidth(code),
{
    match code {
        1 | 5 => 250_000,
        2 | 6 => 500_000,
        _ => 125_000,
    }
}

/// The wire code of a bandwidth.
pub open spec fn bandwidth_code(hz: u32) -> u8 {
    if hz == 250_000 {
        1
    } else if hz == 500_000 {
        2
    } else {
        0
    }
}

/// The wire code of a bandwidth in Hz.
pub fn bw_code_of_hz(hz: u32) -> (code: u8)
    ensures
        code == bandwidth_code(hz),
{
    if hz == 250_000 {
        1
    } else if hz == 500_000 {
        2
    } else {
        0
    }
}

/// The three fleet codes survive a round trip, the older ones turn into them, and the bandwidth a
/// host reads back is always the one in use.
pub proof fn bandwidth_codes_round_trip(code: u8)
    ensures
        code <= 2 ==> bandwidth_code(bandwidth(code)) == code,
        4 <= code <= 6 ==> bandwidth_code(bandwidth(code)) == code - 4,
        bandwidth(bandwidth_code(bandwidth(code))) == bandwidth(code),
{
}

/// The spreading factor of a wire value: 9 for one the node does not have.
pub open spec fn spreading(n: u8) -> u8 {
    if 7 <= n <= 12 {
        n
    } else {
        9
    }
}

/// The spreading factor of a wire value.
pub fn sf_from(n: u8) -> (sf: u8)
    ensures
        sf == spreading(n),
{
    if n >= SF_MIN && n <= SF_MAX {
        n
    } else {
        9
    }
}

/// The coding rate of a wire value, 1 to 4 for 4/5 to 4/8: 4/5 for one the node does not have.
pub open spec fn coding(code: u8) -> u8 {
    if 2 <= code <= 4 {
        code
    } else {
        1
    }
}

/// The coding rate of a wire value.
pub fn cr_from(code: u8) -> (cr: u8)
    ensures
        cr == coding(code),
{
    if code >= 2 && code <= 4 {
        code
    } else {
        1
    }
}

/// What the radio is set to.
#[derive(Clone, Copy, PartialEq, Eq, Structural)]
pub struct Params {
    pub freq_hz: u32,
    /// Spreading factor, 7 to 12.
    pub sf: u8,
    /// Bandwidth in Hz: 125, 250 or 500 kHz.
    pub bw_hz: u32,
    /// Coding rate, 1 to 4 for 4/5 to 4/8.
    pub cr: u8,
    /// Transmit power in dBm.
    pub pwr: i8,
}

impl Params {
    /// Values the node can be set to.
    pub open spec fn wf(self) -> bool {
        &&& 7 <= self.sf <= 12
        &&& self.bw_hz == 125_000 || self.bw_hz == 250_000 || self.bw_hz == 500_000
        &&& 1 <= self.cr <= 4
        &&& 2 <= self.pwr <= 20
    }
}

/// Duration of one symbol, in whole microseconds.
pub fn tsym_us(sf: u8, bw_hz: u32) -> (us: u64)
    requires
        sf <= 31,
        bw_hz > 0,
    ensures
        us == crate::airtime::lora_symbol_us(sf, bw_hz),
{
    proof {
        lemma2_to64();
        lemma_pow2_strictly_increases(sf as nat, 32);
        lemma_u64_shl_is_mul(1, sf as u64);
    }
    ((1u64 << sf) * 1_000_000) / bw_hz as u64
}

/// Airtime in milliseconds: the whole ones of the time-on-air sum, and one more.
pub open spec fn frame_ms(p: Params, len: int, preamble: u16) -> int {
    (crate::airtime::lora_total_us(p.sf, p.bw_hz, p.cr, len as u16, preamble) - 1) / 1000 + 1
}

/// The symbol time of valid parameters lies between 256 us and 32768 us.
pub proof fn lemma_symbol_bounds(p: Params)
    requires
        p.wf(),
    ensures
        0 <= crate::airtime::lora_symbol_us(p.sf, p.bw_hz) <= 32_768,
        (pow2(p.sf as nat) * 1_000_000) as int % p.bw_hz as int == 0,
{
    lemma2_to64();
    lemma_pow2_strictly_increases(p.sf as nat, 13);
    if p.sf < 12 {
        lemma_pow2_strictly_increases(p.sf as nat, 12);
    }
    let whole: int = (pow2(p.sf as nat) * 1_000_000) as int;
    assert(whole <= 4_096_000_000);
    assert(0 <= whole / p.bw_hz as int <= 32_768) by (nonlinear_arith)
        requires
            0 <= whole <= 4_096_000_000,
            p.bw_hz >= 125_000,
    ;
    let n: int = pow2(p.sf as nat) as int;
    if p.bw_hz == 125_000 {
        assert(n * 1_000_000 % 125_000 == 0);
    } else if p.bw_hz == 250_000 {
        assert(n * 1_000_000 % 250_000 == 0);
    } else {
        assert(n * 1_000_000 % 500_000 == 0);
    }
}

/// A frame of up to 255 bytes stays on the air for less than an hour.
pub proof fn lemma_frame_ms_bound(p: Params, len: int, preamble: u16)
    requires
        p.wf(),
        0 <= len <= 255,
    ensures
        1 <= frame_ms(p, len, preamble) <= 2_700_000,
{
    lemma_symbol_bounds(p);
    crate::airtime::lemma_whole_symbols(p.sf, p.bw_hz, p.cr, len as u16, preamble);
    let t = crate::airtime::lora_symbol_us(p.sf, p.bw_hz);
    let syms = crate::airtime::lora_payload_symbols(p.sf, p.bw_hz, p.cr, len as u16);
    let de: int = if p.sf >= 11 && p.bw_hz == 125_000 {
        1
    } else {
        0
    };
    let num: int = 8 * len - 4 * p.sf + 28 + 16;
    let den: int = 4 * (p.sf - 2 * de);
    if num > 0 {
        assert(0 < (num + den - 1) / den <= num) by (nonlinear_arith)
            requires
                num > 0,
                den >= 28,
        ;
    }
    let steps: int = if num <= 0 {
        0
    } else {
        (num + den - 1) / den
    };
    assert(0 <= steps * (p.cr + 4) <= 2_056 * 8) by (nonlinear_arith)
        requires
            0 <= steps <= 2_056,
            1 <= p.cr <= 4,
    ;
    assert(0 <= t * (4 * preamble + 17) <= 32_768 * 262_157) by (nonlinear_arith)
        requires
            0 <= t <= 32_768,
            0 <= preamble <= 65_535,
    ;
    assert(0 <= t * syms <= 32_768 * 16_456) by (nonlinear_arith)
        requires
            0 <= t <= 32_768,
            0 <= syms <= 16_456,
    ;
    assert(t * (4 * preamble + 17 + 4 * syms) == t * (4 * preamble + 17) + 4 * (t * syms))
        by (nonlinear_arith);
}

/// Airtime of a frame at these parameters, in milliseconds.
pub fn airtime_ms(p: &Params, payload_len: usize, preamble: u16) -> (ms: u32)
    requires
        p.wf(),
        payload_len <= 255,
    ensures
        ms == frame_ms(*p, payload_len as int, preamble),
        1 <= ms <= 2_700_000,
{
    proof {
        lemma_frame_ms_bound(*p, payload_len as int, preamble);
        lemma_symbol_bounds(*p);
    }
    let us: u32 = crate::airtime::lora_airtime_us(
        p.sf,
        p.bw_hz,
        p.cr,
        payload_len as u16,
        preamble,
    );
    proof {
        assert(crate::airtime::lora_total_us(p.sf, p.bw_hz, p.cr, payload_len as u16, preamble)
            <= 2_700_000_000);
    }
    (us - 1) / 1000 + 1
}

/// The airtime as the sixteen bits of the start event.
pub open spec fn started_ms(air_ms: u32) -> u16 {
    if air_ms <= 65_535 {
        air_ms as u16
    } else {
        65_535
    }
}

/// The airtime cut to the sixteen bits of the start event.
pub fn cut_ms(air_ms: u32) -> (ms: u16)
    ensures
        ms == started_ms(air_ms),
{
    if air_ms <= u16::MAX as u32 {
        air_ms as u16
    } else {
        u16::MAX
    }
}

} // verus!
