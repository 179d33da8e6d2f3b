//! The modems of the node, their parameters, and the wire codes of both.

use vstd::arithmetic::power2::{lemma2_to64, pow2};
use vstd::prelude::*;

use crate::airtime::{airtime_ms_ceil, lora_airtime_us, lrfhss_airtime_us};
use crate::flrc_link::{bitrate_of_code, cr_of_code, FlrcParams};

verus! {

/// Spreading factors of the LoRa modem.
pub const LORA_SF_MIN: u8 = 7;
pub const LORA_SF_MAX: u8 = 12;
/// Longest LoRa payload the host link can carry.
pub const LORA_PAYLOAD_MAX: u16 = 247;
/// Deepest hop table.
pub const MAX_HOPS: usize = 40;
/// Syncword of the FLRC modem, low half.
pub const FLRC_SYNC16: u16 = 0xCAFE;

/// A modem.
#[derive(Clone, Copy, PartialEq, Eq, Structural)]
pub enum Phy {
    Lora,
    Flrc,
    LrFhss,
}

impl Phy {
    /// The packet type of the chip.
    pub open spec fn spec_code(self) -> u8 {
        match self {
            Phy::Lora => 0,
            Phy::Flrc => 5,
            Phy::LrFhss => 7,
        }
    }

    /// The packet type of the chip.
    pub fn code(self) -> (c: u8)
        ensures
            c == self.spec_code(),
    {
        match self {
            Phy::Lora => 0,
            Phy::Flrc => 5,
            Phy::LrFhss => 7,
        }
    }

    /// The modem of a packet type.
    pub fn from_code(c: u8) -> (p: Option<Phy>)
        ensures
            p matches Some(x) ==> x.spec_code() == c,
            p is None <==> c != 0 && c != 5 && c != 7,
    {
        match c {
            0 => Some(Phy::Lora),
            5 => Some(Phy::Flrc),
            7 => Some(Phy::LrFhss),
            _ => None,
        }
    }
}

/// LR-FHSS coding rate.
#[derive(Clone, Copy, PartialEq, Eq, Structural)]
pub enum LrfhssCr {
    Cr5p6,
    Cr2p3,
    Cr1p2,
    Cr1p3,
}

impl LrfhssCr {
    /// The chip's code.
    pub open spec fn spec_code(self) -> u8 {
        match self {
            LrfhssCr::Cr5p6 => 0,
            LrfhssCr::Cr2p3 => 1,
            LrfhssCr::Cr1p2 => 2,
            LrfhssCr::Cr1p3 => 3,
        }
    }

    /// The chip's code.
    pub fn code(self) -> (c: u8)
        ensures
            c == self.spec_code(),
    {
        match self {
            LrfhssCr::Cr5p6 => 0,
            LrfhssCr::Cr2p3 => 1,
            LrfhssCr::Cr1p2 => 2,
            LrfhssCr::Cr1p3 => 3,
        }
    }
}

/// The LR-FHSS coding rate of a code.
pub fn lrfhss_cr_of_code(c: u8) -> (r: Option<LrfhssCr>)
    ensures
        r matches Some(x) ==> x.spec_code() == c,
        r is None <==> c > 3,
{
    match c {
        0 => Some(LrfhssCr::Cr5p6),
        1 => Some(LrfhssCr::Cr2p3),
        2 => Some(LrfhssCr::Cr1p2),
        3 => Some(LrfhssCr::Cr1p3),
        _ => None,
    }
}

/// LR-FHSS hopping bandwidth, named by its kHz.
#[derive(Clone, Copy, PartialEq, Eq, Structural)]
pub enum LrfhssBw {
    Bw39p06,
    Bw85p94,
    Bw136p72,
    Bw183p59,
    Bw335p94,
    Bw386p72,
    Bw722p66,
    Bw773p44,
    Bw1523p4,
    Bw1574p2,
}

impl LrfhssBw {
    /// The chip's code.
    pub open spec fn spec_code(self) -> u8 {
        match self {
            LrfhssBw::Bw39p06 => 0,
            LrfhssBw::Bw85p94 => 1,
            LrfhssBw::Bw136p72 => 2,
            LrfhssBw::Bw183p59 => 3,
            LrfhssBw::Bw335p94 => 4,
            LrfhssBw::Bw386p72 => 5,
            LrfhssBw::Bw722p66 => 6,
            LrfhssBw::Bw773p44 => 7,
            LrfhssBw::Bw1523p4 => 8,
            LrfhssBw::Bw1574p2 => 9,
        }
    }

    /// The chip's code.
    pub fn code(self) -> (c: u8)
        ensures
            c == self.spec_code(),
    {
        match self {
            LrfhssBw::Bw39p06 => 0,
            LrfhssBw::Bw85p94 => 1,
            LrfhssBw::Bw136p72 => 2,
            LrfhssBw::Bw183p59 => 3,
            LrfhssBw::Bw335p94 => 4,
            LrfhssBw::Bw386p72 => 5,
            LrfhssBw::Bw722p66 => 6,
            LrfhssBw::Bw773p44 => 7,
            LrfhssBw::Bw1523p4 => 8,
            LrfhssBw::Bw1574p2 => 9,
        }
    }
}

/// The LR-FHSS hopping bandwidth of a code.
pub fn lrfhss_bw_of_code(c: u8) -> (r: Option<LrfhssBw>)
    ensures
        r matches Some(x) ==> x.spec_code() == c,
        r is None <==> c > 9,
{
    match c {
        0 => Some(LrfhssBw::Bw39p06),
        1 => Some(LrfhssBw::Bw85p94),
        2 => Some(LrfhssBw::Bw136p72),
        3 => Some(LrfhssBw::Bw183p59),
        4 => Some(LrfhssBw::Bw335p94),
        5 => Some(LrfhssBw::Bw386p72),
        6 => Some(LrfhssBw::Bw722p66),
        7 => Some(LrfhssBw::Bw773p44),
        8 => Some(LrfhssBw::Bw1523p4),
        9 => Some(LrfhssBw::Bw1574p2),
        _ => None,
    }
}

/// The LoRa bandwidth of a wire code: the fleet's 0 to 2 and the older 4 to 6.
pub open spec fn lora_bandwidth(code: u8) -> Option<u32> {
    if code == 0 || code == 4 {
        Some(125_000)
    } else if code == 1 || code == 5 {
        Some(250_000)
    } else if code == 2 || code == 6 {
        Some(500_000)
    } else {
        None
    }
}

/// The LoRa bandwidth of a wire code, in Hz.
pub fn lora_bw_hz_of_code(code: u8) -> (hz: Option<u32>)
    ensures
        hz == lora_bandwidth(code),
{
    match code {
        0 | 4 => Some(125_000),
        1 | 5 => Some(250_000),
        2 | 6 => Some(500_000),
        _ => None,
    }
}

/// LoRa modem parameters.
#[derive(Clone, Copy, PartialEq, Eq, Structural)]
pub struct LoraParams {
    /// Spreading factor, 7 to 12.
    pub sf: u8,
    pub bw_hz: u32,
    /// Coding rate, 1 to 4 for 4/5 to 4/8.
    pub cr: u8,
    pub preamble_syms: u16,
}

/// LR-FHSS modem parameters.
#[derive(Clone, Copy, PartialEq, Eq, Structural)]
pub struct LrfhssParams {
    pub bw: LrfhssBw,
    pub cr: LrfhssCr,
    /// Copies of the synchronisation header.
    pub sync_headers: u8,
}

/// The modem in use, with its parameters.
#[derive(Clone, Copy, PartialEq, Eq, Structural)]
pub enum PhyMode {
    Flrc(FlrcParams),
    Lora(LoraParams),
    LrFhss(LrfhssParams),
}

/// The board's own limits, and what each modem starts with.
#[derive(Clone, Copy, PartialEq, Eq, Structural)]
pub struct Profile {
    pub band_min_hz: u32,
    pub band_max_hz: u32,
    pub pwr_min_dbm: i8,
    pub pwr_max_dbm: i8,
    /// Modems that can be switched to, one bit for each packet type.
    pub phy_bitmap: u32,
    pub flrc_start: FlrcParams,
    pub lora_start: LoraParams,
    pub lrfhss_start: LrfhssParams,
    pub lrfhss_payload_max: u16,
    /// Placement granularity of each modem, in nanoseconds.
    pub flrc_gran_ns: u32,
    pub lora_gran_ns: u32,
    pub lrfhss_gran_ns: u32,
    /// Low halves of the syncwords.
    pub lora_sync16: u16,
    pub lrfhss_sync16: u16,
}

impl Profile {
    /// The power range is one that half-dB steps can hold, and the modems start sound.
    pub open spec fn wf(self) -> bool {
        &&& self.band_min_hz <= self.band_max_hz
        &&& -64 <= self.pwr_min_dbm <= self.pwr_max_dbm <= 63
        &&& self.lora_start.wf()
        &&& self.lrfhss_payload_max <= 247
    }

    /// A carrier inside the calibrated band.
    pub open spec fn covers(self, hz: u32) -> bool {
        self.band_min_hz <= hz <= self.band_max_hz
    }

    /// Whether a carrier is inside the calibrated band.
    pub fn in_band(&self, hz: u32) -> (b: bool)
        ensures
            b == self.covers(hz),
    {
        self.band_min_hz <= hz && hz <= self.band_max_hz
    }

    /// The power register for a power in dBm: cut to the amplifier's range, in half-dB steps.
    pub open spec fn power_register(self, dbm: i8) -> int {
        2 * (if dbm < self.pwr_min_dbm {
            self.pwr_min_dbm
        } else if dbm > self.pwr_max_dbm {
            self.pwr_max_dbm
        } else {
            dbm
        })
    }

    /// The power register for a power in dBm.
    pub fn dbm_to_half_db(&self, dbm: i8) -> (reg: i8)
        requires
            self.wf(),
        ensures
            reg == self.power_register(dbm),
    {
        let cut: i8 = if dbm < self.pwr_min_dbm {
            self.pwr_min_dbm
        } else if dbm > self.pwr_max_dbm {
            self.pwr_max_dbm
        } else {
            dbm
        };
        2 * cut
    }

    /// A modem is on offer.
    pub open spec fn offers(self, p: Phy) -> bool {
        (self.phy_bitmap >> p.spec_code()) & 1 != 0
    }

    /// Whether a modem is on offer.
    pub fn advertised(&self, p: Phy) -> (b: bool)
        ensures
            b == self.offers(p),
    {
        (self.phy_bitmap >> p.code()) & 1 != 0
    }
}

impl LoraParams {
    /// Parameters that a command can set.
    pub open spec fn wf(self) -> bool {
        &&& 7 <= self.sf <= 12
        &&& self.bw_hz == 125_000 || self.bw_hz == 250_000 || self.bw_hz == 500_000
        &&& 1 <= self.cr <= 4
    }
}

/// The hop plan a host has loaded.
pub struct HopPlan {
    pub enabled: bool,
    /// Dwell of one hop, in symbols.
    pub period: u16,
    pub freqs: Vec<u32>,
}

/// Everything that is programmed into the radio.
pub struct PhyState {
    /// Carrier, in Hz.
    pub freq_hz: u32,
    /// Transmit power in the half-dB unit of the register.
    pub tx_power_half_db: i8,
    pub mode: PhyMode,
    pub hop: HopPlan,
}

/// A carrier hop check: why a plan cannot run.
#[derive(Clone, Copy, PartialEq, Eq, Structural)]
pub enum HopError {
    /// This modem has no hopping.
    WrongPhy,
    /// A reserved control bit is set.
    ReservedBits,
    /// More hops than the table holds.
    TooDeep,
    /// No time on a hop.
    ZeroDwell,
    /// A carrier outside the calibrated band.
    OutOfBand,
}

/// What is wrong with a hop plan: the modem must hop, the control byte is 0 or 1, the table holds
/// 40, and a plan that starts dwells on carriers of the band.
pub open spec fn hop_fault(
    pr: Profile,
    p: Phy,
    ctrl: u8,
    period: u16,
    freqs: Seq<u32>,
) -> Option<HopError> {
    if p == Phy::Flrc {
        Some(HopError::WrongPhy)
    } else if ctrl > 1 {
        Some(HopError::ReservedBits)
    } else if freqs.len() > 40 {
        Some(HopError::TooDeep)
    } else if ctrl == 1 && period == 0 {
        Some(HopError::ZeroDwell)
    } else if exists|i: int| 0 <= i < freqs.len() && !pr.covers(#[trigger] freqs[i]) {
        Some(HopError::OutOfBand)
    } else {
        None
    }
}

/// Checks a hop plan; says whether it starts hopping.
pub fn check_hop(pr: &Profile, p: Phy, ctrl: u8, period: u16, freqs: &[u32]) -> (r: Result<
    bool,
    HopError,
>)
    ensures
        (match r {
            Ok(enable) => hop_fault(*pr, p, ctrl, period, freqs@) is None && enable == (ctrl == 1),
            Err(e) => hop_fault(*pr, p, ctrl, period, freqs@) == Some(e),
        }),
{
    match p {
        Phy::Flrc => {
            return Err(HopError::WrongPhy);
        },
        _ => {},
    }
    if ctrl > 1 {
        return Err(HopError::ReservedBits);
    }
    if freqs.len() > MAX_HOPS {
        return Err(HopError::TooDeep);
    }
    if ctrl == 1 && period == 0 {
        return Err(HopError::ZeroDwell);
    }
    let mut i: usize = 0;
    while i < freqs.len()
        invariant
            i <= freqs.len(),
            forall|k: int| 0 <= k < i ==> pr.covers(#[trigger] freqs@[k]),
            hop_fault(*pr, p, ctrl, period, freqs@) == (if exists|k: int|
                0 <= k < freqs@.len() && !pr.covers(#[trigger] freqs@[k]) {
                Some(HopError::OutOfBand)
            } else {
                None::<HopError>
            }),
        decreases freqs.len() - i,
    {
        if !pr.in_band(freqs[i]) {
            return Err(HopError::OutOfBand);
        }
        i += 1;
    }
    Ok(ctrl == 1)
}

impl PhyMode {
    /// The modem.
    pub open spec fn spec_phy(self) -> Phy {
        match self {
            PhyMode::Flrc(_) => Phy::Flrc,
            PhyMode::Lora(_) => Phy::Lora,
            PhyMode::LrFhss(_) => Phy::LrFhss,
        }
    }

    /// Parameters that a command can set.
    pub open spec fn wf(self) -> bool {
        self matches PhyMode::Lora(p) ==> p.wf()
    }

    /// The mode after `[a, b, c]`, where every field is one the modem has.
    pub open spec fn with_triple(self, a: u8, b: u8, c: u8) -> Option<PhyMode> {
        match self {
            PhyMode::Flrc(p) => if a <= 7 && c <= 3 {
                Some(
                    PhyMode::Flrc(
                        FlrcParams {
                            bitrate: rung(a),
                            coding: flrc_coding(c),
                            ..p
                        },
                    ),
                )
            } else {
                None
            },
            PhyMode::Lora(p) => if lora_bandwidth(b) is Some && 7 <= a <= 12 && 1 <= c <= 4 {
                Some(PhyMode::Lora(LoraParams { sf: a, bw_hz: lora_bandwidth(b)->0, cr: c, ..p }))
            } else {
                None
            },
            PhyMode::LrFhss(p) => if a == 0 && b <= 9 && c <= 3 {
                Some(
                    PhyMode::LrFhss(
                        LrfhssParams { bw: lrfhss_band(b), cr: lrfhss_coding(c), ..p },
                    ),
                )
            } else {
                None
            },
        }
    }

    /// The three slots a host reads back.
    pub open spec fn triple(self) -> Seq<u8> {
        match self {
            PhyMode::Flrc(p) => seq![p.bitrate.spec_code(), 0u8, p.coding.spec_code()],
            PhyMode::Lora(p) => seq![
                p.sf,
                crate::lora_node::params::bandwidth_code(p.bw_hz),
                p.cr,
            ],
            PhyMode::LrFhss(p) => seq![0u8, p.bw.spec_code(), p.cr.spec_code()],
        }
    }

    /// The airtime of a payload, in microseconds.
    pub open spec fn frame_us(self, len: int) -> int {
        match self {
            PhyMode::Flrc(p) => p.frame_us(),
            PhyMode::Lora(p) => crate::airtime::lora_total_us(
                p.sf,
                p.bw_hz,
                p.cr,
                len as u16,
                p.preamble_syms,
            ),
            PhyMode::LrFhss(p) => crate::airtime::lrfhss_frame_us(
                p.cr.spec_code(),
                p.sync_headers,
                len as u16,
            ),
        }
    }
}

impl PhyMode {
    /// The airtime that is announced: whole milliseconds, rounded up, two big-endian bytes.
    pub open spec fn announced(self, len: int) -> Seq<u8> {
        crate::bytes::be16(crate::airtime::ms_ceil(self.frame_us(len)) as u16)
    }
}

/// What is programmed into the radio.
#[verifier::ext_equal]
pub struct PhyView {
    pub freq_hz: u32,
    pub tx_power_half_db: i8,
    pub mode: PhyMode,
    pub hop_enabled: bool,
    pub hop_period: u16,
    pub hop_freqs: Seq<u32>,
}

impl View for PhyState {
    type V = PhyView;

    open spec fn view(&self) -> PhyView {
        PhyView {
            freq_hz: self.freq_hz,
            tx_power_half_db: self.tx_power_half_db,
            mode: self.mode,
            hop_enabled: self.hop.enabled,
            hop_period: self.hop.period,
            hop_freqs: self.hop.freqs@,
        }
    }
}

impl PhyView {
    /// The state after a change of modem: its parameters are those it starts with, and the hop plan
    /// is dropped.
    pub open spec fn switched(self, pr: Profile, p: Phy) -> PhyView {
        PhyView {
            mode: PhyState::start_mode(pr, p),
            hop_enabled: false,
            hop_period: 0,
            hop_freqs: Seq::empty(),
            ..self
        }
    }
}

/// The bitrate of a code.
pub open spec fn rung(c: u8) -> crate::flrc_link::FlrcBitrate {
    if c == 0 {
        crate::flrc_link::FlrcBitrate::Br2600
    } else if c == 1 {
        crate::flrc_link::FlrcBitrate::Br2080
    } else if c == 2 {
        crate::flrc_link::FlrcBitrate::Br1300
    } else if c == 3 {
        crate::flrc_link::FlrcBitrate::Br1040
    } else if c == 4 {
        crate::flrc_link::FlrcBitrate::Br0650
    } else if c == 5 {
        crate::flrc_link::FlrcBitrate::Br0520
    } else if c == 6 {
        crate::flrc_link::FlrcBitrate::Br0325
    } else {
        crate::flrc_link::FlrcBitrate::Br0260
    }
}

/// The FLRC coding rate of a code.
pub open spec fn flrc_coding(c: u8) -> crate::flrc_link::FlrcCr {
    if c == 0 {
        crate::flrc_link::FlrcCr::Cr12
    } else if c == 1 {
        crate::flrc_link::FlrcCr::Cr34
    } else if c == 2 {
        crate::flrc_link::FlrcCr::Uncoded
    } else {
        crate::flrc_link::FlrcCr::Cr23
    }
}

/// The LR-FHSS bandwidth of a code.
pub open spec fn lrfhss_band(c: u8) -> LrfhssBw {
    if c == 0 {
        LrfhssBw::Bw39p06
    } else if c == 1 {
        LrfhssBw::Bw85p94
    } else if c == 2 {
        LrfhssBw::Bw136p72
    } else if c == 3 {
        LrfhssBw::Bw183p59
    } else if c == 4 {
        LrfhssBw::Bw335p94
    } else if c == 5 {
        LrfhssBw::Bw386p72
    } else if c == 6 {
        LrfhssBw::Bw722p66
    } else if c == 7 {
        LrfhssBw::Bw773p44
    } else if c == 8 {
        LrfhssBw::Bw1523p4
    } else {
        LrfhssBw::Bw1574p2
    }
}

/// The LR-FHSS coding rate of a code.
pub open spec fn lrfhss_coding(c: u8) -> LrfhssCr {
    if c == 0 {
        LrfhssCr::Cr5p6
    } else if c == 1 {
        LrfhssCr::Cr2p3
    } else if c == 2 {
        LrfhssCr::Cr1p2
    } else {
        LrfhssCr::Cr1p3
    }
}

impl PhyState {
    /// The mode is sound and the plan fits the table.
    pub open spec fn wf(self) -> bool {
        &&& self.mode.wf()
        &&& self.hop.freqs@.len() <= 40
    }

    /// The modem in use.
    pub fn phy(&self) -> (p: Phy)
        ensures
            p == self.mode.spec_phy(),
    {
        match self.mode {
            PhyMode::Flrc(_) => Phy::Flrc,
            PhyMode::Lora(_) => Phy::Lora,
            PhyMode::LrFhss(_) => Phy::LrFhss,
        }
    }

    /// The transmit power in dBm that is in effect.
    pub fn tx_power_dbm(&self) -> (dbm: i8)
        ensures
            dbm == crate::flrc_link::half_toward_zero(self.tx_power_half_db as int),
    {
        if self.tx_power_half_db >= 0 {
            self.tx_power_half_db / 2
        } else {
            let up: i16 = -(self.tx_power_half_db as i16);
            (-(up / 2)) as i8
        }
    }

    /// The longest payload of a modem.
    pub open spec fn payload_cap(pr: Profile, p: Phy) -> u16 {
        match p {
            Phy::Flrc => 47,
            Phy::Lora => 247,
            Phy::LrFhss => pr.lrfhss_payload_max,
        }
    }

    /// The longest payload of the modem in use.
    pub fn max_payload(&self, pr: &Profile) -> (n: u16)
        ensures
            n == PhyState::payload_cap(*pr, self.mode.spec_phy()),
    {
        match self.phy() {
            Phy::Flrc => crate::flrc_link::PAYLOAD_MAX as u16,
            Phy::Lora => LORA_PAYLOAD_MAX,
            Phy::LrFhss => pr.lrfhss_payload_max,
        }
    }

    /// The airtime of a payload, in microseconds.
    pub fn airtime_us(&self, len: u16) -> (us: u32)
        requires
            self.wf(),
            len <= 255,
        ensures
            us == self.mode.frame_us(len as int),
    {
        match self.mode {
            PhyMode::Flrc(p) => p.airtime_us(),
            PhyMode::Lora(p) => {
                proof {
                    lemma_lora_bound(p, len);
                }
                lora_airtime_us(p.sf, p.bw_hz, p.cr, len, p.preamble_syms)
            },
            PhyMode::LrFhss(p) => {
                proof {
                    lemma_lrfhss_bound(p.cr.spec_code(), p.sync_headers, len);
                }
                lrfhss_airtime_us(p.cr.code(), p.sync_headers, len)
            },
        }
    }

    /// The airtime that is announced.
    pub fn airtime_ms_be(&self, len: u16) -> (body: Vec<u8>)
        requires
            self.wf(),
            len <= 255,
        ensures
            body@ == self.mode.announced(len as int),
    {
        let ms: u16 = airtime_ms_ceil(self.airtime_us(len));
        let mut body: Vec<u8> = Vec::new();
        crate::bytes::push_be16(&mut body, ms);
        assert(body@ =~= crate::bytes::be16(ms));
        body
    }

    /// The mode a modem starts with.
    pub open spec fn start_mode(pr: Profile, p: Phy) -> PhyMode {
        match p {
            Phy::Flrc => PhyMode::Flrc(pr.flrc_start),
            Phy::Lora => PhyMode::Lora(pr.lora_start),
            Phy::LrFhss => PhyMode::LrFhss(pr.lrfhss_start),
        }
    }

    /// The link that nodes agree on before any host speaks: FLRC at its defaults, no hopping.
    pub fn start(pr: &Profile) -> (st: PhyState)
        ensures
            st.wf(),
            st@ == (PhyView {
                freq_hz: 915_000_000,
                tx_power_half_db: 12,
                mode: PhyMode::Flrc(pr.flrc_start),
                hop_enabled: false,
                hop_period: 0,
                hop_freqs: Seq::empty(),
            }),
    {
        PhyState {
            freq_hz: crate::flrc_link::FREQ_HZ,
            tx_power_half_db: crate::flrc_link::TX_POWER_HALF_DB,
            mode: PhyMode::Flrc(pr.flrc_start),
            hop: HopPlan { enabled: false, period: 0, freqs: Vec::new() },
        }
    }

    /// A copy.
    pub fn copy(&self) -> (st: PhyState)
        requires
            self.wf(),
        ensures
            st.wf(),
            st@ == self@,
    {
        let mut freqs: Vec<u32> = Vec::new();
        let mut i: usize = 0;
        while i < self.hop.freqs.len()
            invariant
                i <= self.hop.freqs.len(),
                freqs@ == self.hop.freqs@.take(i as int),
            decreases self.hop.freqs.len() - i,
        {
            freqs.push(self.hop.freqs[i]);
            i += 1;
            assert(freqs@ =~= self.hop.freqs@.take(i as int));
        }
        assert(freqs@ =~= self.hop.freqs@);
        PhyState {
            freq_hz: self.freq_hz,
            tx_power_half_db: self.tx_power_half_db,
            mode: self.mode,
            hop: HopPlan { enabled: self.hop.enabled, period: self.hop.period, freqs },
        }
    }

    /// Changes the modem: its parameters are those it starts with, and the hop plan is dropped.
    pub fn set_phy(&mut self, pr: &Profile, p: Phy)
        requires
            pr.wf(),
        ensures
            final(self).wf(),
            final(self)@ == old(self)@.switched(*pr, p),
    {
        self.mode = match p {
            Phy::Flrc => PhyMode::Flrc(pr.flrc_start),
            Phy::Lora => PhyMode::Lora(pr.lora_start),
            Phy::LrFhss => PhyMode::LrFhss(pr.lrfhss_start),
        };
        self.hop = HopPlan { enabled: false, period: 0, freqs: Vec::new() };
    }

    /// Sets the modem's three slots, where every field is one it has; else nothing changes. LoRa
    /// takes spreading factor, bandwidth code and coding rate; FLRC a rung and a coding rate,
    /// whatever the middle slot; LR-FHSS a zero, a bandwidth and a coding rate.
    pub fn set_mod(&mut self, a: u8, b: u8, c: u8) -> (ok: bool)
        requires
            old(self).wf(),
        ensures
            final(self).wf(),
            (match old(self).mode.with_triple(a, b, c) {
                Some(m) => ok && final(self)@ == (PhyView { mode: m, ..old(self)@ }),
                None => !ok && final(self)@ == old(self)@,
            }),
    {
        match self.mode {
            PhyMode::Flrc(p) => match (bitrate_of_code(a), cr_of_code(c)) {
                (Some(br), Some(cr)) => {
                    assert(rung(a) == br && flrc_coding(c) == cr);
                    self.mode = PhyMode::Flrc(
                        FlrcParams { bitrate: br, coding: cr, preamble: p.preamble },
                    );
                    true
                },
                _ => false,
            },
            PhyMode::Lora(p) => match lora_bw_hz_of_code(b) {
                Some(bw_hz) => {
                    if a >= LORA_SF_MIN && a <= LORA_SF_MAX && c >= 1 && c <= 4 {
                        self.mode = PhyMode::Lora(
                            LoraParams { sf: a, bw_hz, cr: c, preamble_syms: p.preamble_syms },
                        );
                        true
                    } else {
                        false
                    }
                },
                None => false,
            },
            PhyMode::LrFhss(p) => match (lrfhss_bw_of_code(b), lrfhss_cr_of_code(c)) {
                (Some(bw), Some(cr)) => {
                    if a == 0 {
                        assert(lrfhss_band(b) == bw && lrfhss_coding(c) == cr);
                        self.mode = PhyMode::LrFhss(
                            LrfhssParams { bw, cr, sync_headers: p.sync_headers },
                        );
                        true
                    } else {
                        false
                    }
                },
                _ => false,
            },
        }
    }

    /// The three slots a host reads back.
    pub fn mod_triple(&self) -> (t: [u8; 3])
        ensures
            t@ == self.mode.triple(),
    {
        let t: [u8; 3] = match self.mode {
            PhyMode::Flrc(p) => [p.bitrate.code(), 0, p.coding.code()],
            PhyMode::Lora(p) => [p.sf, crate::lora_node::params::bw_code_of_hz(p.bw_hz), p.cr],
            PhyMode::LrFhss(p) => [0, p.bw.code(), p.cr.code()],
        };
        assert(t@ =~= self.mode.triple());
        t
    }

    /// The low half of the modem's syncword.
    pub open spec fn sync16(pr: Profile, p: Phy) -> u16 {
        match p {
            Phy::Flrc => 0xCAFE,
            Phy::Lora => pr.lora_sync16,
            Phy::LrFhss => pr.lrfhss_sync16,
        }
    }

    /// The low half of the syncword in use.
    pub fn sync_word(&self, pr: &Profile) -> (w: u16)
        ensures
            w == PhyState::sync16(*pr, self.mode.spec_phy()),
    {
        match self.phy() {
            Phy::Flrc => FLRC_SYNC16,
            Phy::Lora => pr.lora_sync16,
            Phy::LrFhss => pr.lrfhss_sync16,
        }
    }
}

proof fn lemma_lora_bound(p: LoraParams, len: u16)
    requires
        p.wf(),
        len <= 255,
    ensures
        0 <= crate::airtime::lora_total_us(p.sf, p.bw_hz, p.cr, len, p.preamble_syms)
            <= 2_300_000_000,
        crate::airtime::lora_args_valid(p.sf, p.bw_hz, p.cr),
{
    lemma2_to64();
    assert(pow2(p.sf as nat) <= 4096) by {
        assert(p.sf == 7 || p.sf == 8 || p.sf == 9 || p.sf == 10 || p.sf == 11 || p.sf == 12);
    }
    let tsym = crate::airtime::lora_symbol_us(p.sf, p.bw_hz);
    assert(0 <= tsym <= 32_768) by {
        let n: int = (pow2(p.sf as nat) * 1_000_000) as int;
        if p.bw_hz == 125_000 {
            assert(n / 125_000 <= 32_768);
        } else if p.bw_hz == 250_000 {
            assert(n / 250_000 <= 32_768);
        } else {
            assert(n / 500_000 <= 32_768);
        }
    }
    let pre: int = 4 * p.preamble_syms + 17;
    assert(0 <= tsym * pre <= 32_768 * 262_157) by (nonlinear_arith)
        requires
            0 <= tsym <= 32_768,
            0 <= pre <= 262_157,
    ;
    let sym = crate::airtime::lora_payload_symbols(p.sf, p.bw_hz, p.cr, len);
    assert(0 <= sym <= 1_100) by {
        let de: int = if p.sf >= 11 && p.bw_hz == 125_000 {
            1
        } else {
            0
        };
        let num: int = 8 * len - 4 * p.sf + 44;
        let den: int = 4 * (p.sf - 2 * de);
        let steps: int = if num <= 0 {
            0
        } else {
            crate::airtime::ceil_div(num, den)
        };
        assert(0 <= steps <= 100) by (nonlinear_arith)
            requires
                num <= 2056,
                28 <= den <= 48,
                steps == (if num <= 0 {
                    0
                } else {
                    (num + den - 1) / den
                }),
        ;
        assert(0 <= steps * (p.cr + 4) <= 800) by (nonlinear_arith)
            requires
                0 <= steps <= 100,
                1 <= p.cr <= 4,
        ;
    }
    assert(0 <= tsym * sym <= 32_768 * 1_100) by (nonlinear_arith)
        requires
            0 <= tsym <= 32_768,
            0 <= sym <= 1_100,
    ;
    let n: int = pow2(p.sf as nat) as int;
    if p.bw_hz == 125_000 {
        assert(n * 1_000_000 % 125_000 == 0);
    } else if p.bw_hz == 250_000 {
        assert(n * 1_000_000 % 250_000 == 0);
    } else {
        assert(n * 1_000_000 % 500_000 == 0);
    }
    crate::airtime::lemma_whole_symbols(p.sf, p.bw_hz, p.cr, len, p.preamble_syms);
    assert(tsym * (pre + 4 * sym) == tsym * pre + 4 * (tsym * sym)) by (nonlinear_arith);
}

proof fn lemma_lrfhss_bound(cr: u8, headers: u8, len: u16)
    requires
        cr <= 3,
        len <= 255,
    ensures
        crate::airtime::lrfhss_frame_us(cr, headers, len) <= 100_000_000,
{
    let coded = crate::airtime::lrfhss_coded_bits(cr, len);
    assert(0 <= coded <= 6_186);
    assert(coded / 48 * 50 <= 6_400 && coded % 48 < 48);
    assert(coded / 48 * (48 + 2) == coded / 48 * 50);
}

/// What a host writes it reads back: the fields it set are in the slots it set them in. The slot
/// that FLRC ignores reads as zero, and an older bandwidth code as the fleet's own.
pub proof fn triple_round_trip(m: PhyMode, a: u8, b: u8, c: u8)
    requires
        m.with_triple(a, b, c) is Some,
    ensures
        ({
            let t = m.with_triple(a, b, c)->0.triple();
            &&& t[0] == a
            &&& t[1] == (match m.spec_phy() {
                Phy::Flrc => 0,
                Phy::Lora => if b <= 2 {
                    b as int
                } else {
                    b - 4
                },
                Phy::LrFhss => b as int,
            })
            &&& t[2] == c
        }),
{
}

} // verus!
