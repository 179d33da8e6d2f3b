//! How long one frame occupies the air, for each modem the nodes run.
//!
//! A host sizes its reply deadline from these numbers, so every rounding goes upwards: a deadline
//! that is a little late costs a little time, one that is early costs a frame.

use vstd::arithmetic::power2::{lemma2_to64, lemma_pow2_strictly_increases, pow2};
use vstd::bits::lemma_u64_shl_is_mul;
use vstd::prelude::*;

verus! {

/// Ticks of the MAC clock per microsecond.
pub const MAC_TICKS_PER_US: u32 = 16;

/// SPI clock of the radio bus, in Hz.
pub const SPI_FREQ_HZ: u32 = 8_000_000;

/// The fastest SPI clock the radio shield declares, in Hz.
pub const SPI_FREQ_MAX_HZ: u32 = 16_000_000;

/// Nanoseconds per MAC-clock tick, rounded up.
pub const SCHED_TICK_NS: u32 = (1000 + MAC_TICKS_PER_US - 1) / MAC_TICKS_PER_US;

/// The five-byte transmit command on the SPI bus, in nanoseconds.
pub const SCHED_SPI_NS: u32 = 5 * 8 * 1000 / (SPI_FREQ_HZ / 1_000_000);

/// The shortest power-amplifier ramp, in nanoseconds.
pub const SCHED_RAMP_NS: u32 = 2_000;

/// Measured latency from a pin edge to the task that reacts to it, in nanoseconds.
pub const SCHED_MCU_NS: u32 = 30_900;

/// Placement granularity declared for absolute scheduling, in nanoseconds.
///
/// The four terms above are a fixed lead that the firmware compensates, so they are not part of
/// it. This covers the measured 3.4 us peak-to-peak spread with margin.
pub const SCHED_GRAN_NS: u32 = 10_000;

/// Placement spread of relative scheduling, in nanoseconds: the serial round trip is inside it.
pub const RELATIVE_SCHED_SPREAD_NS: u32 = 550_000;

/// Period of one LR-FHSS physical bit, in microseconds.
pub const LRFHSS_BIT_US: u32 = 2048;

/// Bits in one LR-FHSS sync header.
pub const LRFHSS_HEADER_BITS: u32 = 114;

/// Bits in one LR-FHSS payload fragment.
pub const LRFHSS_FRAG_BITS: u32 = 48;

/// Bits of preamble before each LR-FHSS fragment.
pub const LRFHSS_BLOCK_PREAMBLE_BITS: u32 = 2;

/// Raw FLRC channel rate of the rung codes, in kbit/s.
pub const BITRATE_KBPS: [u32; 8] = [2600, 2080, 1300, 1040, 650, 520, 325, 260];

/// Channel bits per data bit of the FLRC coding-rate codes, as numerator and denominator.
pub const CR_EXPANSION: [(u32, u32); 4] = [(2, 1), (4, 3), (1, 1), (3, 2)];

/// The quotient of `a` by `b`, rounded up.
pub open spec fn ceil_div(a: int, b: int) -> int {
    (a + b - 1) / b
}

/// The smaller of two integers.
pub open spec fn min_int(a: int, b: int) -> int {
    if a <= b {
        a
    } else {
        b
    }
}

/// The preamble code for a wanted length: the shortest step that is long enough, `None` outside
/// the register's 4..=32.
pub open spec fn preamble_code(bits: int) -> Option<int> {
    if 4 <= bits <= 32 {
        Some(ceil_div(bits, 4) - 1)
    } else {
        None
    }
}

/// The length of a preamble code.
pub open spec fn preamble_len(code: int) -> int {
    4 * (code + 1)
}

/// Length in bits of an FLRC AGC-preamble code: the register counts steps of four bits from 4.
pub fn preamble_bits_of_code(code: u8) -> (bits: u32)
    ensures
        bits == preamble_len(code as int),
{
    (code as u32 + 1) * 4
}

/// The lowest preamble code that is at least `bits` long, or `None` where the register cannot
/// reach it. A length outside 4..=32 is refused, never clamped.
pub fn preamble_code_for_bits(bits: u16) -> (code: Option<u8>)
    ensures
        code is Some <==> preamble_code(bits as int) is Some,
        code matches Some(c) ==> c <= 7 && preamble_code(bits as int) == Some(c as int),
{
    if bits < 4 || bits > 32 {
        return None;
    }
    Some(((bits as u32 + 3) / 4 - 1) as u8)
}

/// A rung code and a coding-rate code that the FLRC modem has.
pub open spec fn flrc_codes_known(rate_code: u8, cr_code: u8) -> bool {
    rate_code < 8 && cr_code < 4
}

/// Channel bits of `data` data bits at a coding rate: 1/2, 3/4, none, 2/3. No fraction of a bit is
/// sent.
pub open spec fn flrc_coded_bits(cr_code: u8, data: int) -> int {
    if cr_code == 0 {
        data * 2
    } else if cr_code == 1 {
        ceil_div(data * 4, 3)
    } else if cr_code == 2 {
        data
    } else {
        ceil_div(data * 3, 2)
    }
}

/// Channel bits of one FLRC frame: preamble and syncword go out uncoded, payload and CRC are
/// expanded by the coding rate first.
pub open spec fn flrc_channel_bits(
    cr_code: u8,
    preamble_bits: int,
    sync_bits: int,
    pld_bytes: int,
    crc_bytes: int,
) -> int {
    preamble_bits + sync_bits + flrc_coded_bits(cr_code, (pld_bytes + crc_bytes) * 8)
}

/// The channel rate of a rung, in kbit/s.
pub open spec fn flrc_kbps(rate_code: u8) -> int {
    BITRATE_KBPS[rate_code as int] as int
}

/// Microseconds that `bits` channel bits take at a rung, rounded up.
pub open spec fn flrc_bits_us(rate_code: u8, bits: int) -> int {
    if rate_code == 0 {
        ceil_div(bits * 1000, 2600)
    } else if rate_code == 1 {
        ceil_div(bits * 1000, 2080)
    } else if rate_code == 2 {
        ceil_div(bits * 1000, 1300)
    } else if rate_code == 3 {
        ceil_div(bits * 1000, 1040)
    } else if rate_code == 4 {
        ceil_div(bits * 1000, 650)
    } else if rate_code == 5 {
        ceil_div(bits * 1000, 520)
    } else if rate_code == 6 {
        ceil_div(bits * 1000, 325)
    } else {
        ceil_div(bits * 1000, 260)
    }
}

/// Airtime in microseconds of one FLRC frame, 0 for a code the modem does not have.
pub open spec fn flrc_airtime_us(
    rate_code: u8,
    cr_code: u8,
    preamble_bits: int,
    sync_bits: int,
    pld_bytes: int,
    crc_bytes: int,
) -> int {
    if flrc_codes_known(rate_code, cr_code) {
        flrc_bits_us(
            rate_code,
            flrc_channel_bits(cr_code, preamble_bits, sync_bits, pld_bytes, crc_bytes),
        )
    } else {
        0
    }
}

/// Airtime of one on-air FLRC frame, in microseconds, rounded up.
///
/// `pld_bytes` is the whole fixed on-air unit. An unknown code gives 0 rather than an invented
/// duration. Frames whose bit count times a thousand leaves 32 bits are outside the function.
pub fn airtime_us(
    rate_code: u8,
    cr_code: u8,
    preamble_bits: u32,
    sync_bits: u32,
    pld_bytes: u32,
    crc_bytes: u32,
) -> (us: u32)
    requires
        flrc_codes_known(rate_code, cr_code) ==> flrc_channel_bits(
            cr_code,
            preamble_bits as int,
            sync_bits as int,
            pld_bytes as int,
            crc_bytes as int,
        ) * 1000 + BITRATE_KBPS[rate_code as int] - 1 <= u32::MAX,
    ensures
        us == flrc_airtime_us(
            rate_code,
            cr_code,
            preamble_bits as int,
            sync_bits as int,
            pld_bytes as int,
            crc_bytes as int,
        ),
{
    if rate_code as usize >= BITRATE_KBPS.len() || cr_code as usize >= CR_EXPANSION.len() {
        return 0;
    }
    let kbps: u32 = BITRATE_KBPS[rate_code as usize];
    let (num, den): (u32, u32) = CR_EXPANSION[cr_code as usize];
    proof {
        assert(cr_code == 0 ==> num == 2 && den == 1);
        assert(cr_code == 1 ==> num == 4 && den == 3);
        assert(cr_code == 2 ==> num == 1 && den == 1);
        assert(cr_code == 3 ==> num == 3 && den == 2);
        assert(rate_code == 0 ==> kbps == 2600);
        assert(rate_code == 1 ==> kbps == 2080);
        assert(rate_code == 2 ==> kbps == 1300);
        assert(rate_code == 3 ==> kbps == 1040);
        assert(rate_code == 4 ==> kbps == 650);
        assert(rate_code == 5 ==> kbps == 520);
        assert(rate_code == 6 ==> kbps == 325);
        assert(rate_code == 7 ==> kbps == 260);
    }
    let data_bits: u32 = (pld_bytes + crc_bytes) * 8;
    let coded_bits: u32 = (data_bits * num + den - 1) / den;
    let bits: u32 = preamble_bits + sync_bits + coded_bits;
    (bits * 1000 + kbps - 1) / kbps
}

/// Payload symbols of one LoRa frame with explicit header and CRC.
pub open spec fn lora_payload_symbols(sf: u8, bw_hz: u32, cr: u8, payload_len: u16) -> int {
    let de: int = if sf >= 11 && bw_hz == 125_000 {
        1
    } else {
        0
    };
    let num: int = 8 * payload_len - 4 * sf + 28 + 16;
    let den: int = 4 * (sf - 2 * de);
    let steps: int = if num <= 0 {
        0
    } else {
        ceil_div(num, den)
    };
    8 + steps * (cr + 4)
}

/// Duration of one LoRa symbol in whole microseconds.
pub open spec fn lora_symbol_us(sf: u8, bw_hz: u32) -> int {
    (pow2(sf as nat) * 1_000_000) as int / bw_hz as int
}

/// Arguments for which a LoRa airtime exists.
pub open spec fn lora_args_valid(sf: u8, bw_hz: u32, cr: u8) -> bool {
    5 <= sf <= 12 && 1 <= cr <= 4 && bw_hz != 0
}

/// Length of a LoRa frame in quarter symbols: preamble, its 4.25-symbol sync, payload.
pub open spec fn lora_quarters(
    sf: u8,
    bw_hz: u32,
    cr: u8,
    payload_len: u16,
    preamble_syms: u16,
) -> int {
    4 * preamble_syms + 17 + 4 * lora_payload_symbols(sf, bw_hz, cr, payload_len)
}

/// The LoRa time-on-air sum before it is cut to 32 bits: the whole frame, rounded up once, and one
/// microsecond so that a real frame is never 0.
pub open spec fn lora_total_us(
    sf: u8,
    bw_hz: u32,
    cr: u8,
    payload_len: u16,
    preamble_syms: u16,
) -> int {
    ceil_div(
        pow2(sf as nat) * 1_000_000 * lora_quarters(sf, bw_hz, cr, payload_len, preamble_syms),
        4 * bw_hz,
    ) + 1
}

/// Airtime of one LoRa frame, in microseconds: the Semtech time-on-air formula, with low-data-rate
/// optimisation at SF11 and up on 125 kHz. Arguments outside the modem give 0.
pub fn lora_airtime_us(
    sf: u8,
    bw_hz: u32,
    cr: u8,
    payload_len: u16,
    preamble_syms: u16,
) -> (us: u32)
    ensures
        lora_args_valid(sf, bw_hz, cr) ==> us == min_int(
            lora_total_us(sf, bw_hz, cr, payload_len, preamble_syms),
            u32::MAX as int,
        ),
        !lora_args_valid(sf, bw_hz, cr) ==> us == 0,
{
    if sf < 5 || sf > 12 || cr < 1 || cr > 4 || bw_hz == 0 {
        return 0;
    }
    let sf_i: i64 = sf as i64;
    let de: i64 = if sf >= 11 && bw_hz == 125_000 {
        1
    } else {
        0
    };
    let pl: i64 = payload_len as i64;
    let num: i64 = 8 * pl - 4 * sf_i + 28 + 16;
    let den: i64 = 4 * (sf_i - 2 * de);
    proof {
        lemma_ceil_div_bound(num as int, den as int);
    }
    let steps: i64 = if num <= 0 {
        0
    } else {
        (num + den - 1) / den
    };
    assert(0 <= steps * (cr + 4) <= 524_304 * 8) by (nonlinear_arith)
        requires
            0 <= steps <= 524_304,
            1 <= cr <= 4,
    ;
    let payload_sym: i64 = 8 + steps * (cr as i64 + 4);
    proof {
        lemma2_to64();
        lemma_pow2_strictly_increases(sf as nat, 13);
        lemma_u64_shl_is_mul(1, sf as u64);
    }
    let quarters: u64 = 4 * preamble_syms as u64 + 17 + 4 * payload_sym as u64;
    let symbol: u64 = (1u64 << sf) * 1_000_000;
    assert(0 <= symbol * quarters <= 8_192_000_000 * 17_039_917) by (nonlinear_arith)
        requires
            0 <= symbol <= 8_192_000_000,
            0 <= quarters <= 17_039_917,
    ;
    let span: u64 = 4 * bw_hz as u64;
    assert(0 <= (symbol * quarters + span - 1) / span as int <= symbol * quarters + span)
        by (nonlinear_arith)
        requires
            symbol * quarters >= 0,
            span >= 1,
    ;
    let total: u64 = (symbol * quarters + span - 1) / span + 1;
    if total > u32::MAX as u64 {
        u32::MAX
    } else {
        total as u32
    }
}

/// A quotient rounded up is no larger than its dividend.
proof fn lemma_ceil_div_bound(num: int, den: int)
    requires
        den >= 1,
    ensures
        num > 0 ==> 0 < ceil_div(num, den) <= num,
{
    if num > 0 {
        assert(0 < (num + den - 1) / den <= num) by (nonlinear_arith)
            requires
                num > 0,
                den >= 1,
        ;
    }
}

/// Coded bits of an LR-FHSS payload with its CRC and trailer, for the coding rates
/// 5/6, 2/3, 1/2 and 1/3.
pub open spec fn lrfhss_coded_bits(cr: u8, payload_len: u16) -> int {
    let length_bits: int = (payload_len + 2) * 8 + 6;
    if cr == 0 {
        ceil_div(length_bits * 6, 5)
    } else if cr == 1 {
        ceil_div(length_bits * 3, 2)
    } else if cr == 2 {
        length_bits * 2
    } else {
        length_bits * 3
    }
}

/// Payload bits on the air: whole fragments and one shorter tail, each behind its own preamble.
pub open spec fn lrfhss_payload_bits(coded_bits: int) -> int {
    let rest: int = coded_bits % 48;
    coded_bits / 48 * (48 + 2) + if rest != 0 {
        rest + 2
    } else {
        0
    }
}

/// Airtime in microseconds of one LR-FHSS frame; a header count of 0 counts as 1.
pub open spec fn lrfhss_frame_us(cr: u8, sync_headers: u8, payload_len: u16) -> int {
    let headers: int = if sync_headers == 0 {
        1
    } else {
        sync_headers as int
    };
    (headers * 114 + lrfhss_payload_bits(lrfhss_coded_bits(cr, payload_len))) * 2048
}

fn coded_bits_of(cr: u8, payload_len: u16) -> (bits: u32)
    requires
        cr <= 3,
    ensures
        bits == lrfhss_coded_bits(cr, payload_len),
        bits <= 1_572_906,
{
    let length_bits: u32 = (payload_len as u32 + 2) * 8 + 6;
    match cr {
        0 => (length_bits * 6 + 4) / 5,
        1 => (length_bits * 3 + 1) / 2,
        2 => length_bits * 2,
        _ => length_bits * 3,
    }
}

/// How many hopping blocks an LR-FHSS frame is cut into, 0 for an unknown coding rate.
pub fn lrfhss_block_count(cr: u8, payload_len: u16) -> (blocks: u16)
    ensures
        cr <= 3 ==> blocks == ceil_div(lrfhss_coded_bits(cr, payload_len), 48),
        cr > 3 ==> blocks == 0,
{
    if cr > 3 {
        return 0;
    }
    let coded_bits: u32 = coded_bits_of(cr, payload_len);
    let whole: u32 = coded_bits / LRFHSS_FRAG_BITS;
    let rest: u32 = coded_bits % LRFHSS_FRAG_BITS;
    let n: u32 = whole + if rest != 0 {
        1
    } else {
        0
    };
    if n > u16::MAX as u32 {
        u16::MAX
    } else {
        n as u16
    }
}

/// Airtime of one LR-FHSS frame, in microseconds, 0 for an unknown coding rate.
pub fn lrfhss_airtime_us(cr: u8, sync_headers: u8, payload_len: u16) -> (us: u32)
    ensures
        cr <= 3 ==> us == lrfhss_frame_us(cr, sync_headers, payload_len),
        cr > 3 ==> us == 0,
{
    if cr > 3 {
        return 0;
    }
    let coded_bits: u32 = coded_bits_of(cr, payload_len);
    let whole: u32 = coded_bits / LRFHSS_FRAG_BITS;
    let rest: u32 = coded_bits % LRFHSS_FRAG_BITS;
    let mut payload_bits: u32 = whole * (LRFHSS_FRAG_BITS + LRFHSS_BLOCK_PREAMBLE_BITS);
    if rest != 0 {
        payload_bits += rest + LRFHSS_BLOCK_PREAMBLE_BITS;
    }
    let hdrs: u32 = if sync_headers == 0 {
        1
    } else {
        sync_headers as u32
    };
    let bits: u32 = hdrs * LRFHSS_HEADER_BITS + payload_bits;
    bits * LRFHSS_BIT_US
}

/// An airtime as whole milliseconds: rounded up, never 0, cut to 16 bits.
pub open spec fn ms_ceil(us: int) -> int {
    if us == 0 {
        1
    } else {
        min_int(ceil_div(us, 1000), u16::MAX as int)
    }
}

/// An airtime as whole milliseconds, rounded up and never zero.
pub fn airtime_ms_ceil(us: u32) -> (ms: u16)
    ensures
        ms == ms_ceil(us as int),
        ms >= 1,
{
    let rest: u32 = if us % 1000 != 0 {
        1
    } else {
        0
    };
    let ms: u32 = us / 1000 + rest;
    let ms: u32 = if ms == 0 {
        1
    } else {
        ms
    };
    if ms > u16::MAX as u32 {
        u16::MAX
    } else {
        ms as u16
    }
}

/// The preamble mapping is exact on every step the register has.
pub proof fn preamble_steps_round_trip(code: int)
    requires
        0 <= code < 8,
    ensures
        preamble_code(preamble_len(code)) == Some(code),
{
}

/// Between steps the preamble is never shorter than asked for, and never a whole step longer.
pub proof fn preamble_rounds_up(bits: int)
    requires
        4 <= bits <= 32,
    ensures
        preamble_code(bits) matches Some(c) && bits <= preamble_len(c) < bits + 4,
{
}

/// A rounded-up FLRC airtime covers the frame, and by less than one microsecond.
pub proof fn flrc_airtime_rounds_up(
    rate_code: u8,
    cr_code: u8,
    preamble_bits: nat,
    sync_bits: nat,
    pld_bytes: nat,
    crc_bytes: nat,
)
    requires
        flrc_codes_known(rate_code, cr_code),
    ensures
        ({
            let us = flrc_airtime_us(
                rate_code,
                cr_code,
                preamble_bits as int,
                sync_bits as int,
                pld_bytes as int,
                crc_bytes as int,
            );
            let bits = flrc_channel_bits(
                cr_code,
                preamble_bits as int,
                sync_bits as int,
                pld_bytes as int,
                crc_bytes as int,
            );
            &&& us * flrc_kbps(rate_code) >= bits * 1000
            &&& (us - 1) * flrc_kbps(rate_code) < bits * 1000
        }),
{
    let bits = flrc_channel_bits(
        cr_code,
        preamble_bits as int,
        sync_bits as int,
        pld_bytes as int,
        crc_bytes as int,
    );
    let kbps = flrc_kbps(rate_code);
    let b: int = bits * 1000;
    assert(kbps >= 260 && flrc_bits_us(rate_code, bits) == (b + kbps - 1) / kbps) by {
        assert(rate_code == 0 ==> kbps == 2600);
        assert(rate_code == 1 ==> kbps == 2080);
        assert(rate_code == 2 ==> kbps == 1300);
        assert(rate_code == 3 ==> kbps == 1040);
        assert(rate_code == 4 ==> kbps == 650);
        assert(rate_code == 5 ==> kbps == 520);
        assert(rate_code == 6 ==> kbps == 325);
        assert(rate_code == 7 ==> kbps == 260);
    }
    assert((b + kbps - 1) / kbps * kbps >= b && ((b + kbps - 1) / kbps - 1) * kbps < b)
        by (nonlinear_arith)
        requires
            kbps >= 260,
    ;
}

/// Every further header replica of an LR-FHSS frame costs exactly one header on the air.
pub proof fn lrfhss_header_cost(cr: u8, sync_headers: u8, payload_len: u16)
    requires
        1 <= sync_headers < 255,
    ensures
        lrfhss_frame_us(cr, (sync_headers + 1) as u8, payload_len) == lrfhss_frame_us(
            cr,
            sync_headers,
            payload_len,
        ) + LRFHSS_HEADER_BITS * LRFHSS_BIT_US,
{
}

/// A frame has at least its preamble's sync and eight payload symbols.
proof fn lemma_quarters(sf: u8, bw_hz: u32, cr: u8, payload_len: u16, preamble_syms: u16)
    requires
        lora_args_valid(sf, bw_hz, cr),
    ensures
        lora_quarters(sf, bw_hz, cr, payload_len, preamble_syms) >= 49,
{
    let de: int = if sf >= 11 && bw_hz == 125_000 {
        1
    } else {
        0
    };
    let num: int = 8 * payload_len - 4 * sf + 28 + 16;
    let den: int = 4 * (sf - 2 * de);
    lemma_ceil_div_bound(num, den);
    let steps: int = if num <= 0 {
        0
    } else {
        ceil_div(num, den)
    };
    assert(steps * (cr + 4) >= 0) by (nonlinear_arith)
        requires
            steps >= 0,
    ;
}

/// A LoRa frame that exists never takes zero time.
pub proof fn lora_airtime_positive(
    sf: u8,
    bw_hz: u32,
    cr: u8,
    payload_len: u16,
    preamble_syms: u16,
)
    requires
        lora_args_valid(sf, bw_hz, cr),
    ensures
        lora_total_us(sf, bw_hz, cr, payload_len, preamble_syms) >= 1,
{
    lora_airtime_is_never_understated(sf, bw_hz, cr, payload_len, preamble_syms);
    lemma_quarters(sf, bw_hz, cr, payload_len, preamble_syms);
    let q = lora_quarters(sf, bw_hz, cr, payload_len, preamble_syms);
    let total = lora_total_us(sf, bw_hz, cr, payload_len, preamble_syms);
    let symbol: int = (pow2(sf as nat) * 1_000_000) as int;
    assert(total >= 1) by (nonlinear_arith)
        requires
            4 * bw_hz * total >= symbol * q,
            4 * bw_hz * (total - 1) >= symbol * q,
            symbol >= 0,
            q >= 0,
            bw_hz >= 1,
    ;
}

/// A LoRa airtime is never understated, whatever the bandwidth, and overstated by less than two
/// microseconds: a frame of `q` quarter symbols takes `2^sf * q / (4 * bw)` seconds.
pub proof fn lora_airtime_is_never_understated(
    sf: u8,
    bw_hz: u32,
    cr: u8,
    payload_len: u16,
    preamble_syms: u16,
)
    requires
        lora_args_valid(sf, bw_hz, cr),
    ensures
        ({
            let exact = pow2(sf as nat) * 1_000_000 * lora_quarters(
                sf,
                bw_hz,
                cr,
                payload_len,
                preamble_syms,
            );
            let total = lora_total_us(sf, bw_hz, cr, payload_len, preamble_syms);
            &&& exact <= 4 * bw_hz * total
            &&& exact <= 4 * bw_hz * (total - 1)
            &&& 4 * bw_hz * (total - 2) < exact
        }),
{
    let q = lora_quarters(sf, bw_hz, cr, payload_len, preamble_syms);
    let exact: int = pow2(sf as nat) * 1_000_000 * q;
    let span: int = 4 * bw_hz;
    let t: int = ceil_div(exact, span);
    vstd::arithmetic::div_mod::lemma_fundamental_div_mod(exact + span - 1, span);
    let r: int = (exact + span - 1) % span;
    assert(span * t == t * span && span * (t + 1) == span * t + span && span * (t - 1) == span * t
        - span) by (nonlinear_arith);
}

proof fn lemma_ceil_div_grows(a: int, b: int, d: int)
    requires
        a <= b,
        d > 0,
    ensures
        ceil_div(a, d) <= ceil_div(b, d),
{
    vstd::arithmetic::div_mod::lemma_div_is_ordered(a + d - 1, b + d - 1, d);
}

/// Heavier coding, a longer payload or a longer preamble never shortens a LoRa frame, nor the time
/// that is reported for it.
pub proof fn more_of_a_lora_frame_never_shortens_it(
    sf: u8,
    bw_hz: u32,
    cr: u8,
    payload_len: u16,
    preamble_syms: u16,
    more_cr: u8,
    more_payload: u16,
    more_preamble: u16,
)
    requires
        lora_args_valid(sf, bw_hz, cr),
        lora_args_valid(sf, bw_hz, more_cr),
        cr <= more_cr,
        payload_len <= more_payload,
        preamble_syms <= more_preamble,
    ensures
        lora_payload_symbols(sf, bw_hz, cr, payload_len) <= lora_payload_symbols(
            sf,
            bw_hz,
            more_cr,
            more_payload,
        ),
        lora_total_us(sf, bw_hz, cr, payload_len, preamble_syms) <= lora_total_us(
            sf,
            bw_hz,
            more_cr,
            more_payload,
            more_preamble,
        ),
        min_int(lora_total_us(sf, bw_hz, cr, payload_len, preamble_syms), u32::MAX as int)
            <= min_int(
            lora_total_us(sf, bw_hz, more_cr, more_payload, more_preamble),
            u32::MAX as int,
        ),
{
    let de: int = if sf >= 11 && bw_hz == 125_000 {
        1
    } else {
        0
    };
    let den: int = 4 * (sf - 2 * de);
    let a: int = 8 * payload_len - 4 * sf + 28 + 16;
    let b: int = 8 * more_payload - 4 * sf + 28 + 16;
    lemma_ceil_div_grows(a, b, den);
    lemma_ceil_div_bound(a, den);
    lemma_ceil_div_bound(b, den);
    let s: int = if a <= 0 {
        0
    } else {
        ceil_div(a, den)
    };
    let t: int = if b <= 0 {
        0
    } else {
        ceil_div(b, den)
    };
    assert(s * (cr + 4) <= t * (more_cr + 4)) by (nonlinear_arith)
        requires
            0 <= s <= t,
            0 <= cr <= more_cr,
    ;
    let q = lora_quarters(sf, bw_hz, cr, payload_len, preamble_syms);
    let r = lora_quarters(sf, bw_hz, more_cr, more_payload, more_preamble);
    let symbol: int = (pow2(sf as nat) * 1_000_000) as int;
    assert(symbol * q <= symbol * r) by (nonlinear_arith)
        requires
            q <= r,
            symbol >= 0,
    ;
    lemma_ceil_div_grows(symbol * q, symbol * r, 4 * bw_hz);
}

/// Where a symbol takes a whole number of microseconds, as at 125, 250 and 500 kHz, the sum can be
/// taken over whole symbol times.
pub proof fn lemma_whole_symbols(
    sf: u8,
    bw_hz: u32,
    cr: u8,
    payload_len: u16,
    preamble_syms: u16,
)
    requires
        lora_args_valid(sf, bw_hz, cr),
        (pow2(sf as nat) * 1_000_000) as int % bw_hz as int == 0,
    ensures
        lora_total_us(sf, bw_hz, cr, payload_len, preamble_syms) == ceil_div(
            lora_symbol_us(sf, bw_hz) * lora_quarters(sf, bw_hz, cr, payload_len, preamble_syms),
            4,
        ) + 1,
{
    let q = lora_quarters(sf, bw_hz, cr, payload_len, preamble_syms);
    let tsym = lora_symbol_us(sf, bw_hz);
    let bw = bw_hz as int;
    let whole: int = (pow2(sf as nat) * 1_000_000) as int;
    vstd::arithmetic::div_mod::lemma_fundamental_div_mod(whole, bw);
    let x: int = tsym * q;
    assert(whole * q == bw * x) by (nonlinear_arith)
        requires
            whole == bw * tsym,
            x == tsym * q,
    ;
    let c: int = (x + 3) / 4;
    let r: int = (x + 3) % 4;
    assert(x + 3 == 4 * c + r && 0 <= r < 4);
    let rest: int = bw * (r + 1) - 1;
    assert(bw * x + 4 * bw - 1 == c * (4 * bw) + rest && 0 <= rest < 4 * bw) by (nonlinear_arith)
        requires
            x + 3 == 4 * c + r,
            0 <= r < 4,
            rest == bw * (r + 1) - 1,
            bw >= 1,
    ;
    vstd::arithmetic::div_mod::lemma_fundamental_div_mod_converse(
        bw * x + 4 * bw - 1,
        4 * bw,
        c,
        rest,
    );
}

/// In milliseconds an airtime is never understated, as far as 16 bits reach, and never zero; a
/// longer one is announced as the longest.
pub proof fn milliseconds_are_never_understated(us: int)
    requires
        0 <= us,
    ensures
        0 < us <= 65_535_000 ==> us <= 1000 * ms_ceil(us) < us + 1000,
        us > 65_535_000 ==> ms_ceil(us) == 65_535,
        ms_ceil(us) >= 1,
{
}

proof fn lemma_fragments(coded: int)
    ensures
        lrfhss_payload_bits(coded) == coded + 2 * ceil_div(coded, 48),
{
    let whole: int = coded / 48;
    let rest: int = coded % 48;
    assert(whole * (48 + 2) == 50 * whole) by (nonlinear_arith);
    assert(coded == 48 * whole + rest && 0 <= rest < 48);
    assert(ceil_div(coded, 48) == if rest == 0 {
        whole
    } else {
        whole + 1
    });
}

/// The number of hopping blocks and the airtime of an LR-FHSS frame describe one frame: each block
/// adds its preamble to the coded bits.
pub proof fn blocks_and_airtime_agree(cr: u8, payload_len: u16)
    requires
        cr <= 3,
    ensures
        ({
            let coded = lrfhss_coded_bits(cr, payload_len);
            lrfhss_payload_bits(coded) == coded + 2 * ceil_div(coded, 48)
        }),
{
    lemma_fragments(lrfhss_coded_bits(cr, payload_len));
}

/// Coding adds what its rate says and no more than the last started bit: so many channel bits for so
/// many data bits, at 1/2, 3/4, none and 2/3 for FLRC, at 5/6, 2/3, 1/2 and 1/3 for LR-FHSS, where
/// the data are the payload, its checksum and six bits behind them.
pub proof fn coding_adds_what_its_rate_says(data: int, payload_len: u16)
    requires
        data >= 0,
    ensures
        flrc_coded_bits(0, data) == 2 * data,
        4 * data <= 3 * flrc_coded_bits(1, data) < 4 * data + 3,
        flrc_coded_bits(2, data) == data,
        3 * data <= 2 * flrc_coded_bits(3, data) < 3 * data + 2,
        ({
            let bits: int = 8 * payload_len + 22;
            &&& 6 * bits <= 5 * lrfhss_coded_bits(0, payload_len) < 6 * bits + 5
            &&& 3 * bits <= 2 * lrfhss_coded_bits(1, payload_len) < 3 * bits + 2
            &&& lrfhss_coded_bits(2, payload_len) == 2 * bits
            &&& lrfhss_coded_bits(3, payload_len) == 3 * bits
        }),
{
}

/// Only payload and checksum are coded: preamble and syncword add their own bits to a frame.
pub proof fn preamble_and_syncword_are_uncoded(cr: u8, preamble: int, sync: int, pld: int, crc: int)
    ensures
        flrc_channel_bits(cr, preamble, sync, pld, crc) - preamble - sync == flrc_channel_bits(
            cr,
            0,
            0,
            pld,
            crc,
        ),
        flrc_channel_bits(2, 0, 0, pld, crc) == 8 * (pld + crc),
        flrc_channel_bits(0, 0, 0, pld, crc) == 16 * (pld + crc),
{
}

/// A higher rung is never faster: the same bits take at least as long at the next code, and ten times
/// as long at the last as at the first, but for rounding.
pub proof fn higher_rungs_are_slower(code: u8, bits: int)
    requires
        code < 7,
        bits >= 0,
    ensures
        flrc_bits_us(code, bits) <= flrc_bits_us((code + 1) as u8, bits),
        bits * 1000 <= 2600 * flrc_bits_us(0, bits) < bits * 1000 + 2600,
        bits * 1000 <= 260 * flrc_bits_us(7, bits) < bits * 1000 + 260,
{
}

/// The rate halves with every second rung, from 2600 and 2080 kbit/s on.
pub proof fn every_second_rung_halves_the_rate(code: u8)
    requires
        code < 6,
    ensures
        flrc_kbps(0) == 2600,
        flrc_kbps(1) == 2080,
        flrc_kbps(code) == 2 * flrc_kbps((code + 2) as u8),
{
    assert(BITRATE_KBPS[0] == 2600 && BITRATE_KBPS[1] == 2080 && BITRATE_KBPS[2] == 1300
        && BITRATE_KBPS[3] == 1040 && BITRATE_KBPS[4] == 650 && BITRATE_KBPS[5] == 520
        && BITRATE_KBPS[6] == 325 && BITRATE_KBPS[7] == 260);
}

/// Behind eight symbols of header a LoRa payload goes out in blocks of as many symbols as its coding
/// rate says, each with four bits for every bit of the spreading factor, or of two less where a
/// symbol is so long that the modem takes two away: as few blocks as hold the payload, its header
/// and its checksum, less what the first symbols hold already.
pub proof fn a_lora_payload_takes_as_few_blocks_as_hold_it(
    sf: u8,
    bw_hz: u32,
    cr: u8,
    payload_len: u16,
)
    requires
        lora_args_valid(sf, bw_hz, cr),
    ensures
        ({
            let behind = lora_payload_symbols(sf, bw_hz, cr, payload_len) - 8;
            let blocks = behind / (cr + 4);
            let per: int = if (sf == 11 || sf == 12) && bw_hz == 125_000 {
                4 * sf - 8
            } else {
                4 * sf
            };
            let need: int = 8 * payload_len + 44 - 4 * sf;
            &&& behind == blocks * (cr + 4)
            &&& need > 0 ==> (blocks - 1) * per < need <= blocks * per
            &&& need <= 0 ==> blocks == 0
        }),
{
    let de: int = if sf >= 11 && bw_hz == 125_000 {
        1
    } else {
        0
    };
    let num: int = 8 * payload_len - 4 * sf + 28 + 16;
    let den: int = 4 * (sf - 2 * de);
    let steps: int = if num <= 0 {
        0
    } else {
        ceil_div(num, den)
    };
    let w: int = cr + 4;
    assert((steps * w) / w == steps) by (nonlinear_arith)
        requires
            w >= 5,
    ;
    if num > 0 {
        vstd::arithmetic::div_mod::lemma_fundamental_div_mod(num + den - 1, den);
        let r: int = (num + den - 1) % den;
        assert(num + den - 1 == den * steps + r && 0 <= r < den);
        assert((steps - 1) * den == den * steps - den && steps * den == den * steps)
            by (nonlinear_arith);
    }
}

/// A LoRa frame is its preamble, four and a quarter symbols of sync, and its payload.
pub proof fn a_lora_frame_is_preamble_sync_and_payload(
    sf: u8,
    bw_hz: u32,
    cr: u8,
    payload_len: u16,
    preamble_syms: u16,
)
    ensures
        lora_quarters(sf, bw_hz, cr, payload_len, preamble_syms) - 4 * lora_payload_symbols(
            sf,
            bw_hz,
            cr,
            payload_len,
        ) == 4 * preamble_syms + 16 + 1,
{
}

/// An LR-FHSS frame is its headers of 114 bits, its coded bits and two more for each started block of
/// 48, at 2048 microseconds a bit; no header counts as one.
pub proof fn an_lrfhss_frame_is_headers_and_blocks(cr: u8, headers: u8, payload_len: u16)
    ensures
        headers > 0 ==> ({
            let us = lrfhss_frame_us(cr, headers, payload_len);
            let coded = lrfhss_coded_bits(cr, payload_len);
            &&& us % 2048 == 0
            &&& us / 2048 - 114 * headers == coded + 2 * ceil_div(coded, 48)
        }),
        lrfhss_frame_us(cr, 0, payload_len) == lrfhss_frame_us(cr, 1, payload_len),
{
    lemma_fragments(lrfhss_coded_bits(cr, payload_len));
}

} // verus!
