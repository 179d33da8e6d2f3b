//! The FLRC link: its parameters, the packet configuration they imply, and the fixed on-air frame.

use vstd::prelude::*;

use crate::airtime::{airtime_ms_ceil, airtime_us, preamble_bits_of_code, preamble_code_for_bits};

verus! {

/// Raw bitrate rungs, in the order of their codes.
#[derive(Clone, Copy, PartialEq, Eq, Structural, Debug)]
pub enum FlrcBitrate {
    Br2600,
    Br2080,
    Br1300,
    Br1040,
    Br0650,
    Br0520,
    Br0325,
    Br0260,
}

impl FlrcBitrate {
    /// The wire and chip code of a rung.
    pub open spec fn spec_code(self) -> u8 {
        match self {
            FlrcBitrate::Br2600 => 0,
            FlrcBitrate::Br2080 => 1,
            FlrcBitrate::Br1300 => 2,
            FlrcBitrate::Br1040 => 3,
            FlrcBitrate::Br0650 => 4,
            FlrcBitrate::Br0520 => 5,
            FlrcBitrate::Br0325 => 6,
            FlrcBitrate::Br0260 => 7,
        }
    }

    /// The wire and chip code of this rung.
    pub fn code(self) -> (c: u8)
        ensures
            c == self.spec_code(),
            c < 8,
    {
        match self {
            FlrcBitrate::Br2600 => 0,
            FlrcBitrate::Br2080 => 1,
            FlrcBitrate::Br1300 => 2,
            FlrcBitrate::Br1040 => 3,
            FlrcBitrate::Br0650 => 4,
            FlrcBitrate::Br0520 => 5,
            FlrcBitrate::Br0325 => 6,
            FlrcBitrate::Br0260 => 7,
        }
    }
}

/// The rung of a code, or `None` where there is no such rung.
pub fn bitrate_of_code(c: u8) -> (r: Option<FlrcBitrate>)
    ensures
        r is Some <==> c < 8,
        r matches Some(b) ==> b.spec_code() == c,
{
    match c {
        0 => Some(FlrcBitrate::Br2600),
        1 => Some(FlrcBitrate::Br2080),
        2 => Some(FlrcBitrate::Br1300),
        3 => Some(FlrcBitrate::Br1040),
        4 => Some(FlrcBitrate::Br0650),
        5 => Some(FlrcBitrate::Br0520),
        6 => Some(FlrcBitrate::Br0325),
        7 => Some(FlrcBitrate::Br0260),
        _ => None,
    }
}

/// Coding rates, in the order of their codes: note that error correction off is the third.
#[derive(Clone, Copy, PartialEq, Eq, Structural, Debug)]
pub enum FlrcCr {
    Cr12,
    Cr34,
    Uncoded,
    Cr23,
}

impl FlrcCr {
    /// The wire and chip code of a coding rate.
    pub open spec fn spec_code(self) -> u8 {
        match self {
            FlrcCr::Cr12 => 0,
            FlrcCr::Cr34 => 1,
            FlrcCr::Uncoded => 2,
            FlrcCr::Cr23 => 3,
        }
    }

    /// The wire and chip code of this coding rate.
    pub fn code(self) -> (c: u8)
        ensures
            c == self.spec_code(),
            c < 4,
    {
        match self {
            FlrcCr::Cr12 => 0,
            FlrcCr::Cr34 => 1,
            FlrcCr::Uncoded => 2,
            FlrcCr::Cr23 => 3,
        }
    }
}

/// The coding rate of a code, or `None` where there is no such rate.
pub fn cr_of_code(c: u8) -> (r: Option<FlrcCr>)
    ensures
        r is Some <==> c < 4,
        r matches Some(b) ==> b.spec_code() == c,
{
    match c {
        0 => Some(FlrcCr::Cr12),
        1 => Some(FlrcCr::Cr34),
        2 => Some(FlrcCr::Uncoded),
        3 => Some(FlrcCr::Cr23),
        _ => None,
    }
}

/// AGC preamble lengths, in the order of their codes.
#[derive(Clone, Copy, PartialEq, Eq, Structural, Debug)]
pub enum AgcPblLen {
    Len4Bits,
    Len8Bits,
    Len12Bits,
    Len16Bits,
    Len20Bits,
    Len24Bits,
    Len28Bits,
    Len32Bits,
}

impl AgcPblLen {
    /// The register code of a preamble length.
    pub open spec fn spec_code(self) -> u8 {
        match self {
            AgcPblLen::Len4Bits => 0,
            AgcPblLen::Len8Bits => 1,
            AgcPblLen::Len12Bits => 2,
            AgcPblLen::Len16Bits => 3,
            AgcPblLen::Len20Bits => 4,
            AgcPblLen::Len24Bits => 5,
            AgcPblLen::Len28Bits => 6,
            AgcPblLen::Len32Bits => 7,
        }
    }

    /// The register code of this preamble length.
    pub fn code(self) -> (c: u8)
        ensures
            c == self.spec_code(),
            c < 8,
    {
        match self {
            AgcPblLen::Len4Bits => 0,
            AgcPblLen::Len8Bits => 1,
            AgcPblLen::Len12Bits => 2,
            AgcPblLen::Len16Bits => 3,
            AgcPblLen::Len20Bits => 4,
            AgcPblLen::Len24Bits => 5,
            AgcPblLen::Len28Bits => 6,
            AgcPblLen::Len32Bits => 7,
        }
    }
}

/// Width of the checksum the modem appends.
#[derive(Clone, Copy, PartialEq, Eq, Structural, Debug)]
pub enum Crc {
    CrcOff,
    Crc16,
    Crc24,
    Crc32,
}

/// Carrier of the default link, in Hz.
pub const FREQ_HZ: u32 = 915_000_000;
/// Rung of the default link.
pub const BITRATE: FlrcBitrate = FlrcBitrate::Br2600;
/// Coding rate of the default link.
pub const CODING: FlrcCr = FlrcCr::Cr34;
/// Preamble of the default link.
pub const PREAMBLE: AgcPblLen = AgcPblLen::Len32Bits;
/// Checksum of the link.
pub const CRC_MODE: Crc = Crc::Crc16;
/// Checksum bytes of the link.
pub const CRC_BYTES: u32 = 2;
/// Syncword length on the air, in bits.
pub const SYNC_BITS: u32 = 32;
/// The syncword.
pub const SYNCWORD: u32 = 0xCD05_CAFE;
/// Transmit power of the default link, in the half-dB unit of the register.
pub const TX_POWER_HALF_DB: i8 = 12;
/// Bytes of every on-air frame.
pub const FRAME_LEN: u16 = 48;
/// The accepted length of both roles.
pub const MAX_PAYLOAD: u16 = FRAME_LEN;
/// Bytes of every on-air frame, as an array length.
pub const FRAME_BYTES: usize = 48;
/// Payload bytes one frame carries: all but its length byte.
pub const PAYLOAD_MAX: usize = 47;
/// Front-end calibration point, in steps of 4 MHz.
pub const FE_CAL: u16 = 228;
/// Oscillator start-up timeout, in periods of 32 MHz.
pub const TCXO_STARTUP: u32 = 160_000;
/// The shortest packet length the modem accepts.
pub const PLD_LEN_MIN: u16 = 6;

/// Length in bits of a preamble.
pub fn preamble_bits(p: AgcPblLen) -> (bits: u32)
    ensures
        bits == 4 * (p.spec_code() + 1),
        4 <= bits <= 32,
{
    preamble_bits_of_code(p.code())
}

/// The shortest preamble of at least `bits`, or `None` where the register cannot reach it.
pub fn preamble_from_bits(bits: u16) -> (p: Option<AgcPblLen>)
    ensures
        p is Some <==> 4 <= bits <= 32,
        p matches Some(l) ==> 4 * l.spec_code() < bits <= 4 * (l.spec_code() + 1),
{
    match preamble_code_for_bits(bits) {
        Some(0) => Some(AgcPblLen::Len4Bits),
        Some(1) => Some(AgcPblLen::Len8Bits),
        Some(2) => Some(AgcPblLen::Len12Bits),
        Some(3) => Some(AgcPblLen::Len16Bits),
        Some(4) => Some(AgcPblLen::Len20Bits),
        Some(5) => Some(AgcPblLen::Len24Bits),
        Some(6) => Some(AgcPblLen::Len28Bits),
        Some(_) => Some(AgcPblLen::Len32Bits),
        None => None,
    }
}

/// Bytes of a checksum.
pub open spec fn checksum_len(c: Crc) -> u32 {
    match c {
        Crc::CrcOff => 0,
        Crc::Crc16 => 2,
        Crc::Crc24 => 3,
        Crc::Crc32 => 4,
    }
}

/// Bytes the modem appends for a checksum width.
pub fn crc_bytes(c: Crc) -> (n: u32)
    ensures
        n == checksum_len(c),
{
    match c {
        Crc::CrcOff => 0,
        Crc::Crc16 => 2,
        Crc::Crc24 => 3,
        Crc::Crc32 => 4,
    }
}

/// One step of the whitening register, `x^9 + x^5 + 1`.
pub open spec fn lfsr_step(l: u16) -> u16 {
    (l >> 1u16) | (((l ^ (l >> 4u16)) & 1) << 8u16)
}

/// The whitening register after `n` steps from its all-ones seed.
pub open spec fn lfsr_at(n: nat) -> u16
    decreases n,
{
    if n == 0 {
        0x01FF
    } else {
        lfsr_step(lfsr_at((n - 1) as nat))
    }
}

/// The low `b` bits of whitening byte `i`: register outputs `8i` to `8i + b - 1`, least
/// significant first.
pub open spec fn mask_bits(i: nat, b: nat) -> u8
    decreases b,
{
    if b == 0 {
        0
    } else {
        mask_bits(i, (b - 1) as nat) | (((lfsr_at((8 * i + b - 1) as nat) & 1) as u8) << ((b
            - 1) as u8))
    }
}

/// Byte `i` of the whitening sequence.
pub open spec fn mask_byte(i: nat) -> u8 {
    mask_bits(i, 8)
}

/// A frame with the whitening sequence mixed in.
pub open spec fn whitened(s: Seq<u8>) -> Seq<u8> {
    Seq::new(s.len(), |i: int| s[i] ^ mask_byte(i as nat))
}

/// Mixes the whitening sequence into a frame.
pub fn whiten(buf: &mut [u8])
    ensures
        final(buf)@ == whitened(old(buf)@),
{
    let ghost before = buf@;
    let mut lfsr: u16 = 0x01FF;
    let mut i: usize = 0;
    while i < buf.len()
        invariant
            i <= buf.len(),
            buf@.len() == before.len(),
            lfsr == lfsr_at((8 * i) as nat),
            forall|k: int| 0 <= k < i ==> buf@[k] == before[k] ^ mask_byte(k as nat),
            forall|k: int| i <= k < before.len() ==> buf@[k] == before[k],
        decreases buf.len() - i,
    {
        let mut mask: u8 = 0;
        let mut bit: u8 = 0;
        while bit < 8
            invariant
                bit <= 8,
                lfsr == lfsr_at((8 * i + bit) as nat),
                mask == mask_bits(i as nat, bit as nat),
            decreases 8 - bit,
        {
            mask = mask | (((lfsr & 1) as u8) << bit);
            let fb: u16 = ((lfsr ^ (lfsr >> 4u16)) & 1) << 8u16;
            lfsr = (lfsr >> 1u16) | fb;
            bit += 1;
        }
        buf[i] = buf[i] ^ mask;
        i += 1;
    }
    assert(buf@ =~= whitened(before));
}

/// Whitening twice gives the frame back.
pub proof fn whitening_is_self_inverse(s: Seq<u8>)
    ensures
        whitened(whitened(s)) == s,
{
    assert forall|i: int| 0 <= i < s.len() implies whitened(whitened(s))[i] == s[i] by {
        let x = s[i];
        let m = mask_byte(i as nat);
        assert((x ^ m) ^ m == x) by (bit_vector);
    }
    assert(whitened(whitened(s)) =~= s);
}

/// A frame before whitening: the length, the payload, zeros to the fixed size.
pub open spec fn plain_frame(payload: Seq<u8>) -> Seq<u8> {
    Seq::new(
        48,
        |i: int|
            if i == 0 {
                payload.len() as u8
            } else if i <= payload.len() {
                payload[i - 1]
            } else {
                0
            },
    )
}

/// Packs a payload into the fixed on-air frame, whitened. A payload that does not fit is refused.
pub fn build_frame(payload: &[u8]) -> (frame: Option<[u8; FRAME_BYTES]>)
    ensures
        frame is Some <==> payload.len() <= 47,
        frame matches Some(f) ==> f@ == whitened(plain_frame(payload@)),
{
    if payload.len() > PAYLOAD_MAX {
        return None;
    }
    let mut f: [u8; FRAME_BYTES] = [0u8; FRAME_BYTES];
    f[0] = payload.len() as u8;
    let mut i: usize = 0;
    while i < payload.len()
        invariant
            i <= payload.len() <= 47,
            f@[0] == payload.len(),
            forall|k: int| 1 <= k <= i ==> f@[k] == payload@[k - 1],
            forall|k: int| i < k < 48 ==> f@[k] == 0,
        decreases payload.len() - i,
    {
        f[1 + i] = payload[i];
        i += 1;
    }
    assert(f@ =~= plain_frame(payload@));
    whiten(&mut f);
    Some(f)
}

/// Removes the whitening of a received frame in place and returns the payload length, so that the
/// payload is `frame[1..1 + n]`. `None` where the length byte cannot belong to this frame.
pub fn unpack_frame(frame: &mut [u8]) -> (n: Option<usize>)
    ensures
        final(frame)@ == whitened(old(frame)@),
        n is Some <==> old(frame).len() > 0 && whitened(old(frame)@)[0] <= 47 && 1 + whitened(
            old(frame)@,
        )[0] <= old(frame).len(),
        n matches Some(k) ==> k == whitened(old(frame)@)[0],
{
    whiten(frame);
    if frame.len() == 0 {
        return None;
    }
    let n: usize = frame[0] as usize;
    if n > PAYLOAD_MAX || 1 + n > frame.len() {
        return None;
    }
    Some(n)
}

/// What was packed comes out: the receiver finds the payload's length and its bytes.
pub proof fn frame_round_trip(payload: Seq<u8>)
    requires
        payload.len() <= 47,
    ensures
        ({
            let air = whitened(plain_frame(payload));
            let got = whitened(air);
            &&& air.len() == 48
            &&& got[0] == payload.len()
            &&& got.subrange(1, 1 + payload.len() as int) == payload
        }),
{
    whitening_is_self_inverse(plain_frame(payload));
    assert(plain_frame(payload).subrange(1, 1 + payload.len() as int) =~= payload);
}

/// What the modem is told about packets: preamble, checksum, payload length. The syncword is 32
/// bits wide, only the first is sent and matched, and the format is fixed-length.
#[derive(Clone, Copy, PartialEq, Eq, Structural)]
pub struct PacketParams {
    pub preamble: AgcPblLen,
    pub crc: Crc,
    pub pld_len: u16,
}

/// The packet configuration that switches the modem's checksum off.
pub fn set_crc_off() -> (p: PacketParams)
    ensures
        p == (PacketParams { preamble: PREAMBLE, crc: Crc::CrcOff, pld_len: 48 }),
{
    PacketParams { preamble: PREAMBLE, crc: Crc::CrcOff, pld_len: FRAME_LEN }
}

/// The packet configuration for a payload length; shorter ones than the modem takes are raised.
pub fn set_payload_len(len: u16) -> (p: PacketParams)
    ensures
        p == (PacketParams {
            preamble: PREAMBLE,
            crc: CRC_MODE,
            pld_len: if len < 6 {
                6
            } else {
                len
            },
        }),
{
    let pld_len: u16 = if len < PLD_LEN_MIN {
        PLD_LEN_MIN
    } else {
        len
    };
    PacketParams { preamble: PREAMBLE, crc: CRC_MODE, pld_len }
}

/// Half of a register value, rounded towards zero.
pub open spec fn half_toward_zero(x: int) -> int {
    if x >= 0 {
        x / 2
    } else {
        -((-x) / 2)
    }
}

/// What a host can change about the link at run time.
#[derive(Clone, Copy, PartialEq, Eq, Structural)]
pub struct LinkState {
    /// Carrier, in Hz.
    pub freq_hz: u32,
    /// Transmit power in the half-dB unit of the register.
    pub tx_power_half_db: i8,
    pub bitrate: FlrcBitrate,
    pub coding: FlrcCr,
    pub preamble: AgcPblLen,
}

impl Default for LinkState {
    /// The link that nodes agree on before any host speaks.
    fn default() -> (l: LinkState)
        ensures
            l == (LinkState {
                freq_hz: 915_000_000,
                tx_power_half_db: 12,
                bitrate: FlrcBitrate::Br2600,
                coding: FlrcCr::Cr34,
                preamble: AgcPblLen::Len32Bits,
            }),
    {
        LinkState {
            freq_hz: FREQ_HZ,
            tx_power_half_db: TX_POWER_HALF_DB,
            bitrate: BITRATE,
            coding: CODING,
            preamble: PREAMBLE,
        }
    }
}

/// The modem's part of the link.
#[derive(Clone, Copy, PartialEq, Eq, Structural)]
pub struct FlrcParams {
    pub bitrate: FlrcBitrate,
    pub coding: FlrcCr,
    pub preamble: AgcPblLen,
}

impl Default for FlrcParams {
    fn default() -> (p: FlrcParams)
        ensures
            p == (FlrcParams {
                bitrate: FlrcBitrate::Br2600,
                coding: FlrcCr::Cr34,
                preamble: AgcPblLen::Len32Bits,
            }),
    {
        FlrcParams { bitrate: BITRATE, coding: CODING, preamble: PREAMBLE }
    }
}

impl FlrcParams {
    /// The airtime of every frame at these settings: the whole fixed unit, whatever the payload.
    pub open spec fn frame_us(self) -> int {
        crate::airtime::flrc_airtime_us(
            self.bitrate.spec_code(),
            self.coding.spec_code(),
            crate::airtime::preamble_len(self.preamble.spec_code() as int),
            32,
            48,
            2,
        )
    }

    /// Airtime of one on-air frame at these settings, in microseconds.
    pub fn airtime_us(&self) -> (us: u32)
        ensures
            us == self.frame_us(),
            us <= 3_324,
    {
        let rate: u8 = self.bitrate.code();
        let cr: u8 = self.coding.code();
        let pre: u32 = preamble_bits(self.preamble);
        proof {
            lemma_frame_bits(rate, cr, pre as int);
        }
        airtime_us(rate, cr, pre, SYNC_BITS, FRAME_LEN as u32, CRC_BYTES)
    }
}

/// The fixed frame is at most 864 channel bits, at no less than 260 kbit/s.
proof fn lemma_frame_bits(rate: u8, cr: u8, pre: int)
    requires
        rate < 8,
        cr < 4,
        4 <= pre <= 32,
    ensures
        ({
            let bits = crate::airtime::flrc_channel_bits(cr, pre, 32, 48, 2);
            &&& 0 < bits <= 864
            &&& crate::airtime::flrc_kbps(rate) <= 2600
            &&& crate::airtime::flrc_airtime_us(rate, cr, pre, 32, 48, 2) <= 3_324
        }),
{
    let bits = crate::airtime::flrc_channel_bits(cr, pre, 32, 48, 2);
    assert(0 < bits <= 864);
}

impl LinkState {
    /// Transmit power in dBm.
    pub fn tx_power_dbm(&self) -> (dbm: i8)
        ensures
            dbm == half_toward_zero(self.tx_power_half_db as int),
    {
        if self.tx_power_half_db >= 0 {
            self.tx_power_half_db / 2
        } else {
            let up: i16 = -(self.tx_power_half_db as i16);
            (-(up / 2)) as i8
        }
    }

    /// Airtime of one on-air frame at this link's settings, in microseconds.
    pub fn airtime_us(&self) -> (us: u32)
        ensures
            us == self.modem().frame_us(),
            us <= 3_324,
    {
        self.flrc_params().airtime_us()
    }

    /// The airtime in whole milliseconds, rounded up, as two big-endian bytes.
    pub fn airtime_ms_be(&self) -> (b: [u8; 2])
        ensures
            b@ == seq![
                (crate::airtime::ms_ceil(self.modem().frame_us()) / 256) as u8,
                (crate::airtime::ms_ceil(self.modem().frame_us()) % 256) as u8,
            ],
    {
        let ms: u16 = airtime_ms_ceil(self.airtime_us());
        let b: [u8; 2] = [(ms / 256) as u8, (ms % 256) as u8];
        assert(b@ =~= seq![(ms as int / 256) as u8, (ms as int % 256) as u8]);
        b
    }

    /// The modem's part of this link.
    pub open spec fn modem(self) -> FlrcParams {
        FlrcParams { bitrate: self.bitrate, coding: self.coding, preamble: self.preamble }
    }

    /// The modem's part of this link.
    pub fn flrc_params(&self) -> (p: FlrcParams)
        ensures
            p == self.modem(),
    {
        FlrcParams { bitrate: self.bitrate, coding: self.coding, preamble: self.preamble }
    }
}

/// One step of programming the radio. A failing step ends the list it stands in.
#[derive(Clone, Copy, PartialEq, Eq, Structural)]
pub enum LinkOp {
    /// The shared bring-up sequence, from standby through calibration.
    Chain { link: LinkState },
    /// Bitrate and coding rate, with a Gaussian pulse of BT 0.5.
    Modulation { bitrate: FlrcBitrate, coding: FlrcCr },
    /// The switcher workaround that every modulation change needs.
    DcdcWorkaround,
    /// Packet parameters.
    Packet { params: PacketParams },
    /// The first syncword, all 32 bits of it.
    Syncword { word: u32 },
    /// Route receive, transmit and timeout interrupts to DIO8.
    RouteIrq,
    /// Listen without a timeout.
    ListenContinuously,
    /// Start the synthesiser without transmitting; a failure is ignored.
    StartSynthesizer,
    /// Wait.
    WaitUs { us: u32 },
}

/// The modem block of the bring-up: the syncword goes last, behind the packet parameters.
pub fn apply_modem(p: &FlrcParams) -> (ops: Vec<LinkOp>)
    ensures
        ops@ == seq![
            LinkOp::Modulation { bitrate: p.bitrate, coding: p.coding },
            LinkOp::DcdcWorkaround,
            LinkOp::Packet {
                params: PacketParams { preamble: p.preamble, crc: Crc::Crc16, pld_len: 48 },
            },
            LinkOp::Syncword { word: 0xCD05_CAFE },
        ],
{
    let mut ops: Vec<LinkOp> = Vec::new();
    ops.push(LinkOp::Modulation { bitrate: p.bitrate, coding: p.coding });
    ops.push(LinkOp::DcdcWorkaround);
    ops.push(
        LinkOp::Packet {
            params: PacketParams { preamble: p.preamble, crc: CRC_MODE, pld_len: MAX_PAYLOAD },
        },
    );
    ops.push(LinkOp::Syncword { word: SYNCWORD });
    ops
}

/// Programs the whole radio from a link and stays in standby.
pub fn apply(link: &LinkState) -> (ops: Vec<LinkOp>)
    ensures
        ops@ == seq![LinkOp::Chain { link: *link }],
{
    let mut ops: Vec<LinkOp> = Vec::new();
    ops.push(LinkOp::Chain { link: *link });
    ops
}

/// Brings a reset radio up on a link, with its interrupts on the pin.
pub fn configure_with(link: &LinkState) -> (ops: Vec<LinkOp>)
    ensures
        ops@ == seq![LinkOp::Chain { link: *link }, LinkOp::RouteIrq],
{
    let mut ops: Vec<LinkOp> = apply(link);
    ops.push(LinkOp::RouteIrq);
    ops
}

/// Brings a reset radio up on the default link.
pub fn configure() -> (ops: Vec<LinkOp>)
    ensures
        ops@.len() == 2,
        ops@[0] == (LinkOp::Chain {
            link: LinkState {
                freq_hz: 915_000_000,
                tx_power_half_db: 12,
                bitrate: FlrcBitrate::Br2600,
                coding: FlrcCr::Cr34,
                preamble: AgcPblLen::Len32Bits,
            },
        }),
        ops@[1] == LinkOp::RouteIrq,
{
    configure_with(&LinkState::default())
}

/// Programs the radio from a link again and goes back to listening.
pub fn retune(link: &LinkState) -> (ops: Vec<LinkOp>)
    ensures
        ops@ == seq![LinkOp::Chain { link: *link }, LinkOp::ListenContinuously],
{
    let mut ops: Vec<LinkOp> = apply(link);
    ops.push(LinkOp::ListenContinuously);
    ops
}

/// Settles the synthesiser, so that the carrier does not drift under the payload.
pub fn settle_before_tx() -> (ops: Vec<LinkOp>)
    ensures
        ops@ == seq![LinkOp::StartSynthesizer, LinkOp::WaitUs { us: 500 }],
{
    let mut ops: Vec<LinkOp> = Vec::new();
    ops.push(LinkOp::StartSynthesizer);
    ops.push(LinkOp::WaitUs { us: 500 });
    ops
}

/// Output `n` of the whitening register.
pub open spec fn whitening_bit(n: nat) -> u16 {
    lfsr_at(n) & 1
}

proof fn lemma_nine_steps(l: u16)
    by (bit_vector)
    requires
        l < 512,
    ensures
        lfsr_step(l) < 512,
        lfsr_step(
            lfsr_step(
                lfsr_step(
                    lfsr_step(lfsr_step(lfsr_step(lfsr_step(lfsr_step(lfsr_step(l)))))),
                ),
            ),
        ) & 1 == (l & 1) ^ (lfsr_step(lfsr_step(lfsr_step(lfsr_step(l)))) & 1),
{
}

proof fn lemma_register_width(n: nat)
    ensures
        lfsr_at(n) < 512,
    decreases n,
{
    if n > 0 {
        lemma_register_width((n - 1) as nat);
        lemma_nine_steps(lfsr_at((n - 1) as nat));
    }
}

proof fn lemma_later(n: nat, k: nat)
    ensures
        lfsr_at(n + k + 1) == lfsr_step(lfsr_at(n + k)),
{
    assert((n + k + 1 - 1) as nat == n + k);
}

/// The whitening sequence is the one of `x^9 + x^5 + 1`: every output is the sum of those nine and
/// five places before it.
pub proof fn whitening_follows_its_polynomial(n: nat)
    ensures
        whitening_bit(n + 9) == whitening_bit(n) ^ whitening_bit(n + 4),
{
    lemma_register_width(n);
    lemma_nine_steps(lfsr_at(n));
    lemma_later(n, 0);
    lemma_later(n, 1);
    lemma_later(n, 2);
    lemma_later(n, 3);
    lemma_later(n, 4);
    lemma_later(n, 5);
    lemma_later(n, 6);
    lemma_later(n, 7);
    lemma_later(n, 8);
}

/// The whitening sequence starts with nine ones.
pub proof fn whitening_starts_with_ones(n: nat)
    requires
        n < 9,
    ensures
        whitening_bit(n) == 1,
{
    reveal_with_fuel(lfsr_at, 10);
    lemma_start();
}

proof fn lemma_start()
    by (bit_vector)
    ensures
        ({
            let a = lfsr_step(0x01FFu16);
            let b = lfsr_step(a);
            let c = lfsr_step(b);
            let d = lfsr_step(c);
            let e = lfsr_step(d);
            let f = lfsr_step(e);
            let g = lfsr_step(f);
            let h = lfsr_step(g);
            0x01FFu16 & 1 == 1 && a & 1 == 1 && b & 1 == 1 && c & 1 == 1 && d & 1 == 1 && e & 1 == 1
                && f & 1 == 1 && g & 1 == 1 && h & 1 == 1
        }),
{
}

proof fn lemma_bit_joins(low: u8, w: u16, b: u8, c: u8, x: u8)
    by (bit_vector)
    requires
        b < 8,
        c < 8,
    ensures
        (w & 1) as u8 == w & 1 && w & 1 <= 1,
        low >> b == 0 && c == b ==> ((low | (((w & 1) as u8) << b)) >> c) & 1 == w & 1,
        low >> b == 0 && c < b ==> ((low | (((w & 1) as u8) << b)) >> c) & 1 == (low >> c) & 1,
        low >> b == 0 && b < 7 ==> (low | (((w & 1) as u8) << b)) >> ((b + 1) as u8) == 0,
        0u8 >> 0u8 == 0,
        ((x >> c) & 1 == ((x ^ low) >> c) & 1) <==> (low >> c) & 1 == 0,
        (low >> c) & 1 <= 1,
{
}

proof fn lemma_mask_bits_hold(i: nat, b: nat, c: nat)
    requires
        b <= 8,
    ensures
        b < 8 ==> mask_bits(i, b) >> (b as u8) == 0,
        c < b ==> (mask_bits(i, b) >> (c as u8)) & 1 == whitening_bit((8 * i + c) as nat),
    decreases b,
{
    if b == 0 {
        lemma_bit_joins(0, 0, 0, 0, 0);
    } else {
        let p = (b - 1) as nat;
        let w = lfsr_at((8 * i + p) as nat);
        lemma_mask_bits_hold(i, p, c);
        if c < b {
            lemma_bit_joins(mask_bits(i, p), w, p as u8, c as u8, 0);
        } else {
            lemma_bit_joins(mask_bits(i, p), w, p as u8, 0, 0);
        }
    }
}

/// What is mixed into a frame is the whitening sequence, eight outputs to a byte with the earliest in
/// the lowest bit: bit `c` of byte `i` is turned exactly if output `8 * i + c` is 1.
pub proof fn the_sequence_is_mixed_in(s: Seq<u8>, i: nat, c: nat)
    requires
        i < s.len(),
        c < 8,
    ensures
        ((s[i as int] >> (c as u8)) & 1 == (whitened(s)[i as int] >> (c as u8)) & 1)
            <==> whitening_bit((8 * i + c) as nat) == 0,
        whitening_bit((8 * i + c) as nat) <= 1,
{
    lemma_mask_bits_hold(i, 8, c);
    lemma_bit_joins(mask_byte(i), 0, 0, c as u8, s[i as int]);
}

/// The on-air frame of a payload has its length in front, its bytes behind, and zeros to the end.
pub proof fn a_frame_is_its_length_its_bytes_and_zeros(payload: Seq<u8>, i: int)
    requires
        payload.len() <= 47,
        0 <= i < 48,
    ensures
        plain_frame(payload).len() == 48,
        plain_frame(payload)[0] == payload.len(),
        1 <= i <= payload.len() ==> plain_frame(payload)[i] == payload[i - 1],
        i > payload.len() ==> plain_frame(payload)[i] == 0,
{
}

/// Every rung is named by its rate in kbit/s, every preamble by its length in bits, and every coding
/// rate by the data bits in its channel bits.
pub proof fn settings_are_named_by_what_they_are(data: int)
    requires
        data >= 0,
    ensures
        crate::airtime::flrc_kbps(FlrcBitrate::Br2600.spec_code()) == 2600,
        crate::airtime::flrc_kbps(FlrcBitrate::Br2080.spec_code()) == 2080,
        crate::airtime::flrc_kbps(FlrcBitrate::Br1300.spec_code()) == 1300,
        crate::airtime::flrc_kbps(FlrcBitrate::Br1040.spec_code()) == 1040,
        crate::airtime::flrc_kbps(FlrcBitrate::Br0650.spec_code()) == 650,
        crate::airtime::flrc_kbps(FlrcBitrate::Br0520.spec_code()) == 520,
        crate::airtime::flrc_kbps(FlrcBitrate::Br0325.spec_code()) == 325,
        crate::airtime::flrc_kbps(FlrcBitrate::Br0260.spec_code()) == 260,
        crate::airtime::flrc_coded_bits(FlrcCr::Cr12.spec_code(), 1 * data) == 2 * data,
        crate::airtime::flrc_coded_bits(FlrcCr::Cr34.spec_code(), 3 * data) == 4 * data,
        crate::airtime::flrc_coded_bits(FlrcCr::Uncoded.spec_code(), data) == data,
        crate::airtime::flrc_coded_bits(FlrcCr::Cr23.spec_code(), 2 * data) == 3 * data,
        crate::airtime::preamble_len(AgcPblLen::Len4Bits.spec_code() as int) == 4,
        crate::airtime::preamble_len(AgcPblLen::Len8Bits.spec_code() as int) == 8,
        crate::airtime::preamble_len(AgcPblLen::Len12Bits.spec_code() as int) == 12,
        crate::airtime::preamble_len(AgcPblLen::Len16Bits.spec_code() as int) == 16,
        crate::airtime::preamble_len(AgcPblLen::Len20Bits.spec_code() as int) == 20,
        crate::airtime::preamble_len(AgcPblLen::Len24Bits.spec_code() as int) == 24,
        crate::airtime::preamble_len(AgcPblLen::Len28Bits.spec_code() as int) == 28,
        crate::airtime::preamble_len(AgcPblLen::Len32Bits.spec_code() as int) == 32,
{
    crate::airtime::every_second_rung_halves_the_rate(0);
    crate::airtime::every_second_rung_halves_the_rate(1);
    crate::airtime::every_second_rung_halves_the_rate(2);
    crate::airtime::every_second_rung_halves_the_rate(3);
    crate::airtime::every_second_rung_halves_the_rate(4);
    crate::airtime::every_second_rung_halves_the_rate(5);
}

/// The airtime of a link is that of its own settings on a frame of 48 bytes with a syncword of 32 bits
/// and a checksum of two bytes.
pub proof fn the_airtime_is_that_of_the_settings(p: FlrcParams)
    ensures
        ({
            let bits = 4 * (p.preamble.spec_code() + 1) + 32 + crate::airtime::flrc_coded_bits(
                p.coding.spec_code(),
                400,
            );
            let kbps = crate::airtime::flrc_kbps(p.bitrate.spec_code());
            &&& p.frame_us() * kbps >= bits * 1000
            &&& (p.frame_us() - 1) * kbps < bits * 1000
        }),
{
    crate::airtime::flrc_airtime_rounds_up(
        p.bitrate.spec_code(),
        p.coding.spec_code(),
        crate::airtime::preamble_len(p.preamble.spec_code() as int) as nat,
        32,
        48,
        2,
    );
}

/// A checksum is named by its bits, eight to a byte, and none has none.
pub proof fn checksums_are_named_by_their_bits()
    ensures
        8 * checksum_len(Crc::CrcOff) == 0,
        8 * checksum_len(Crc::Crc16) == 16,
        8 * checksum_len(Crc::Crc24) == 24,
        8 * checksum_len(Crc::Crc32) == 32,
        checksum_len(CRC_MODE) == CRC_BYTES,
{
}

/// Half a step toward zero: a power in half-dB steps is read as the whole dB that is nearer to zero.
pub proof fn halves_go_toward_zero(x: int)
    ensures
        half_toward_zero(2 * x) == x,
        x >= 0 ==> half_toward_zero(2 * x + 1) == x,
        x <= 0 ==> half_toward_zero(2 * x - 1) == x,
{
}

} // verus!
