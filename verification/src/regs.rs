//! SX1276 registers that the node drives itself, and the operations it performs on them.
//!
//! An operation is a list of register accesses in the order they must reach the chip. The bus task
//! performs them one by one; what a read-modify-write puts back is computed here.

use vstd::prelude::*;

verus! {

/// Operating mode and long-range bit.
pub const REG_OP_MODE: u8 = 0x01;
/// Carrier, most significant byte.
pub const REG_FRF_MSB: u8 = 0x06;
/// Carrier, middle byte.
pub const REG_FRF_MID: u8 = 0x07;
/// Carrier, least significant byte.
pub const REG_FRF_LSB: u8 = 0x08;
/// Receive gain.
pub const REG_LNA: u8 = 0x0C;
/// Interrupt mask: a one keeps the interrupt from the pins.
pub const REG_IRQ_FLAGS_MASK: u8 = 0x11;
/// Interrupt flags: writing a one clears the flag, a zero leaves it.
pub const REG_IRQ_FLAGS: u8 = 0x12;
/// Modem status.
pub const REG_MODEM_STAT: u8 = 0x18;
/// Wideband RSSI, valid while receiving.
pub const REG_RSSI_VALUE: u8 = 0x1B;
/// Hop status.
pub const REG_HOP_CHANNEL: u8 = 0x1C;
/// Symbols between hops, 0 for none.
pub const REG_HOP_PERIOD: u8 = 0x24;
/// Detector optimisation.
pub const REG_DETECT_OPTIMIZE: u8 = 0x31;
/// Detector threshold.
pub const REG_DETECTION_THRESHOLD: u8 = 0x37;
/// Sync word.
pub const REG_SYNC_WORD: u8 = 0x39;
/// Pin mapping.
pub const REG_DIO_MAPPING1: u8 = 0x40;

/// Maximum LNA gain, default current.
pub const LNA_MAX_GAIN: u8 = 0x20;
/// LNA current boost on the high-frequency port.
pub const LNA_BOOST_HF: u8 = 0x03;
/// Detector optimisation for SF7 to SF12.
pub const DET_OPT_SF7_12: u8 = 0x03;
/// Detector optimisation for SF6.
pub const DET_OPT_SF6: u8 = 0x05;
/// Bits of the detector optimisation code.
pub const DET_OPT_MASK: u8 = 0x07;
/// Reserved bits that survive a write.
pub const DET_OPT_KEEP: u8 = 0b0111_1000;
/// Detector threshold for SF7 to SF12.
pub const DET_THRESH_SF7_12: u8 = 0x0A;
/// Detector threshold for SF6.
pub const DET_THRESH_SF6: u8 = 0x0C;
/// The hop interrupt, in the flags and in the mask.
pub const IRQ_FHSS_CHANGE_CHANNEL: u8 = 0x02;
/// The PLL missed the last hop.
pub const HOP_CHANNEL_PLL_TIMEOUT: u8 = 0x80;
/// The hop counter.
pub const HOP_CHANNEL_MASK: u8 = 0x3F;
/// Every pin-mapping bit but those of DIO1.
pub const DIO1_KEEP: u8 = 0b1100_1111;
/// DIO1 raises on a hop.
pub const DIO1_FHSS_CHANGE_CHANNEL: u8 = 0b01 << 4;
/// DIO1 raises on a receive timeout.
pub const DIO1_RX_TIMEOUT: u8 = 0b00 << 4;
/// Crystal of the radio, in Hz.
pub const FXOSC_HZ: u64 = 32_000_000;
/// RSSI offset on the low-frequency port, in dBm.
pub const RSSI_OFFSET_LF_DBM: i16 = -164;
/// RSSI offset on the high-frequency port, in dBm.
pub const RSSI_OFFSET_HF_DBM: i16 = -157;
/// Carriers above this use the high-frequency port.
pub const RF_MID_BAND_THRESH_HZ: u32 = 525_000_000;

/// The gain register of a setting.
pub open spec fn gain_register(boosted: bool) -> u8 {
    if boosted {
        0x23
    } else {
        0x20
    }
}

/// The gain register for the boolean the host sends: maximum gain, with or without current boost.
pub fn lna_reg(boosted: bool) -> (reg: u8)
    ensures
        reg == gain_register(boosted),
{
    proof {
        lemma_register_bits(0, 0);
    }
    if boosted {
        LNA_MAX_GAIN | LNA_BOOST_HF
    } else {
        LNA_MAX_GAIN
    }
}

/// A detector threshold in the span the chip specifies.
pub open spec fn thresh_in_span(v: u8) -> u8 {
    if v < 0x0A {
        0x0A
    } else if v > 0x0C {
        0x0C
    } else {
        v
    }
}

/// Pulls a detector threshold into the span the chip specifies.
pub fn clamp_det_thresh(v: u8) -> (r: u8)
    ensures
        r == thresh_in_span(v),
{
    if v < DET_THRESH_SF7_12 {
        DET_THRESH_SF7_12
    } else if v > DET_THRESH_SF6 {
        DET_THRESH_SF6
    } else {
        v
    }
}

/// Pulls a value onto the two detector optimisation codes the chip specifies.
pub fn clamp_det_opt(v: u8) -> (r: u8)
    ensures
        r == (if v == 0x05 {
            0x05u8
        } else {
            0x03u8
        }),
{
    if v == DET_OPT_SF6 {
        DET_OPT_SF6
    } else {
        DET_OPT_SF7_12
    }
}

/// The carrier word of a frequency.
pub open spec fn carrier_word_of(hz: u32) -> int {
    hz as int * 524_288 / 32_000_000
}

/// The carrier word of a frequency: `hz * 2^19 / 32 MHz`, as wide as the result register.
pub fn frf_of_hz(hz: u32) -> (frf: u32)
    ensures
        frf == carrier_word_of(hz),
{
    let wide: u64 = hz as u64;
    assert(wide << 19u64 == wide * 524_288) by (bit_vector)
        requires
            wide <= 0xffff_ffff,
    ;
    ((wide << 19u64) / FXOSC_HZ) as u32
}

/// One access of a register list.
#[derive(Clone, Copy, PartialEq, Eq, Structural)]
pub enum RegOp {
    /// Write a value.
    Write { addr: u8, val: u8 },
    /// Read, keep the bits of `keep`, set those of `set`, write back.
    Update { addr: u8, keep: u8, set: u8 },
}

impl RegOp {
    /// The value an access writes, where `cur` is what the register holds.
    pub open spec fn written(self, cur: u8) -> u8 {
        match self {
            RegOp::Write { addr, val } => val,
            RegOp::Update { addr, keep, set } => (cur & keep) | set,
        }
    }

    /// The register an access writes.
    pub open spec fn target(self) -> u8 {
        match self {
            RegOp::Write { addr, val } => addr,
            RegOp::Update { addr, keep, set } => addr,
        }
    }

    /// The value to write, given what a read of the register returned.
    pub fn resolve(&self, cur: u8) -> (val: u8)
        ensures
            val == self.written(cur),
    {
        match *self {
            RegOp::Write { addr: _, val } => val,
            RegOp::Update { addr: _, keep, set } => (cur & keep) | set,
        }
    }

    /// The register to write.
    pub fn addr(&self) -> (addr: u8)
        ensures
            addr == self.target(),
    {
        match *self {
            RegOp::Write { addr, val: _ } => addr,
            RegOp::Update { addr, keep: _, set: _ } => addr,
        }
    }

    /// Whether the register must be read first.
    pub fn reads(&self) -> (r: bool)
        ensures
            r == (self is Update),
    {
        match *self {
            RegOp::Write { .. } => false,
            RegOp::Update { .. } => true,
        }
    }
}

/// The accesses that point the detector at a pair of codes.
pub open spec fn detector_ops(opt: u8, thresh: u8) -> Seq<RegOp> {
    seq![
        RegOp::Update { addr: 0x31, keep: 0x78, set: opt & 0x07 },
        RegOp::Write { addr: 0x37, val: thresh },
    ]
}

/// The accesses that write a detector pair again.
pub open spec fn detector_again_ops(full_opt: u8, thresh: u8) -> Seq<RegOp> {
    seq![
        RegOp::Write { addr: 0x31, val: full_opt },
        RegOp::Write { addr: 0x37, val: thresh },
    ]
}

/// The power of a raw reading, for the port the carrier uses.
pub open spec fn inst_dbm(raw: u8, freq_hz: u32) -> int {
    raw - (if freq_hz > 525_000_000 {
        157int
    } else {
        164int
    })
}

/// The access that maps DIO1.
pub open spec fn dio1_ops(field: u8) -> Seq<RegOp> {
    seq![RegOp::Update { addr: 0x40, keep: 0xCF, set: field & 0x30 }]
}

/// The accesses that let the hop interrupt reach DIO1.
pub open spec fn unmask_ops() -> Seq<RegOp> {
    seq![
        RegOp::Write { addr: 0x12, val: 0x02 },
        RegOp::Update { addr: 0x11, keep: 0xFD, set: 0 },
    ]
}

/// The accesses that mask the hop interrupt.
pub open spec fn mask_ops() -> Seq<RegOp> {
    seq![
        RegOp::Update { addr: 0x11, keep: 0xFF, set: 0x02 },
        RegOp::Write { addr: 0x12, val: 0x02 },
    ]
}

/// The accesses that retune the carrier.
pub open spec fn carrier_ops(frf: u32) -> Seq<RegOp> {
    seq![
        RegOp::Write { addr: 0x06, val: (frf as int / 65536 % 256) as u8 },
        RegOp::Write { addr: 0x07, val: (frf as int / 256 % 256) as u8 },
        RegOp::Write { addr: 0x08, val: (frf as int % 256) as u8 },
    ]
}

/// The register operations of the node's SPI handle.
pub struct SharedSpi;

impl SharedSpi {
    /// The two bytes that read a register: the address with its top bit clear, and a dummy.
    pub fn read_reg(addr: u8) -> (bytes: [u8; 2])
        ensures
            bytes@ == seq![addr & 0x7F, 0u8],
    {
        let bytes: [u8; 2] = [addr & 0x7F, 0x00];
        assert(bytes@ =~= seq![addr & 0x7F, 0u8]);
        bytes
    }

    /// The two bytes that write a register: the address with its top bit set, and the value.
    pub fn write_reg(addr: u8, val: u8) -> (bytes: [u8; 2])
        ensures
            bytes@ == seq![addr | 0x80, val],
    {
        let bytes: [u8; 2] = [addr | 0x80, val];
        assert(bytes@ =~= seq![addr | 0x80, val]);
        bytes
    }

    /// Points the preamble detector at a pair of codes, keeping the reserved bits.
    pub fn set_detector(opt: u8, thresh: u8) -> (ops: Vec<RegOp>)
        ensures
            ops@ == detector_ops(opt, thresh),
    {
        let mut ops: Vec<RegOp> = Vec::new();
        ops.push(
            RegOp::Update { addr: REG_DETECT_OPTIMIZE, keep: DET_OPT_KEEP, set: opt & DET_OPT_MASK },
        );
        ops.push(RegOp::Write { addr: REG_DETECTION_THRESHOLD, val: thresh });
        assert(0b0111_1000u8 == 0x78u8);
        ops
    }

    /// Writes a detector pair again that was computed before: no read.
    pub fn reapply_detector(full_opt: u8, thresh: u8) -> (ops: Vec<RegOp>)
        ensures
            ops@ == detector_again_ops(full_opt, thresh),
    {
        let mut ops: Vec<RegOp> = Vec::new();
        ops.push(RegOp::Write { addr: REG_DETECT_OPTIMIZE, val: full_opt });
        ops.push(RegOp::Write { addr: REG_DETECTION_THRESHOLD, val: thresh });
        ops
    }

    /// A raw RSSI reading in dBm, for the port the carrier uses.
    pub fn rssi_inst_dbm(raw: u8, freq_hz: u32) -> (dbm: i16)
        ensures
            dbm == inst_dbm(raw, freq_hz),
    {
        let offset: i16 = if freq_hz > RF_MID_BAND_THRESH_HZ {
            RSSI_OFFSET_HF_DBM
        } else {
            RSSI_OFFSET_LF_DBM
        };
        offset + raw as i16
    }

    /// Maps DIO1, leaving the fields of the other pins.
    pub fn map_dio1(field: u8) -> (ops: Vec<RegOp>)
        ensures
            ops@ == dio1_ops(field),
    {
        let mut ops: Vec<RegOp> = Vec::new();
        assert(!0b1100_1111u8 == 0x30u8) by (bit_vector);
        ops.push(RegOp::Update { addr: REG_DIO_MAPPING1, keep: DIO1_KEEP, set: field & !DIO1_KEEP });
        ops
    }

    /// Lets the hop interrupt reach DIO1. The flag is cleared before the mask lifts, so that only a
    /// real hop can raise the pin afterwards.
    pub fn unmask_hop_irq() -> (ops: Vec<RegOp>)
        ensures
            ops@ == unmask_ops(),
    {
        let mut ops: Vec<RegOp> = Vec::new();
        assert(!0x02u8 == 0xFDu8) by (bit_vector);
        ops.push(RegOp::Write { addr: REG_IRQ_FLAGS, val: IRQ_FHSS_CHANGE_CHANNEL });
        ops.push(
            RegOp::Update { addr: REG_IRQ_FLAGS_MASK, keep: !IRQ_FHSS_CHANGE_CHANNEL, set: 0 },
        );
        ops
    }

    /// Masks the hop interrupt and clears its flag, in that order.
    pub fn mask_hop_irq() -> (ops: Vec<RegOp>)
        ensures
            ops@ == mask_ops(),
    {
        let mut ops: Vec<RegOp> = Vec::new();
        ops.push(
            RegOp::Update { addr: REG_IRQ_FLAGS_MASK, keep: 0xFF, set: IRQ_FHSS_CHANGE_CHANNEL },
        );
        ops.push(RegOp::Write { addr: REG_IRQ_FLAGS, val: IRQ_FHSS_CHANGE_CHANNEL });
        ops
    }

    /// Retunes the carrier: three single-byte writes, most significant first.
    pub fn write_frf(frf: u32) -> (ops: Vec<RegOp>)
        ensures
            ops@ == carrier_ops(frf),
    {
        let mut ops: Vec<RegOp> = Vec::new();
        assert((frf >> 16u32) as u8 == (frf / 65536) % 256 && (frf >> 8u32) as u8 == (frf / 256)
            % 256 && frf as u8 == frf % 256) by (bit_vector);
        ops.push(RegOp::Write { addr: REG_FRF_MSB, val: (frf >> 16u32) as u8 });
        ops.push(RegOp::Write { addr: REG_FRF_MID, val: (frf >> 8u32) as u8 });
        ops.push(RegOp::Write { addr: REG_FRF_LSB, val: frf as u8 });
        ops
    }
}

/// The three carrier bytes are the word again, for every word the register can hold.
pub proof fn frf_bytes_round_trip(frf: u32)
    requires
        frf <= 0xFF_FFFF,
    ensures
        frf as int / 65536 % 256 * 65536 + frf as int / 256 % 256 * 256 + frf as int % 256 == frf,
{
}

/// Every carrier up to one gigahertz has a 24-bit word, and the word is less than one step of
/// `32 MHz / 2^19` below the carrier.
pub proof fn frf_is_within_one_step(hz: u32)
    requires
        hz <= 1_000_000_000,
    ensures
        ({
            let frf = carrier_word_of(hz);
            &&& 0 <= frf <= 0xFF_FFFF
            &&& frf * 32_000_000 <= hz as int * 524_288 < (frf + 1) * 32_000_000
        }),
{
}

proof fn lemma_register_bits(cur: u8, val: u8)
    by (bit_vector)
    ensures
        (cur & 0xFDu8) | 0u8 == cur & 0xFDu8,
        ((cur & 0x78u8) | (val & 0x07u8)) & 0x78 == cur & 0x78,
        ((cur & 0x78u8) | (val & 0x07u8)) & 0x07 == val & 0x07,
        ((cur & 0x78u8) | (val & 0x07u8)) & 0x80 == 0,
        ((cur & 0xCFu8) | (val & 0x30u8)) & 0x30 == val & 0x30,
        ((cur & 0xCFu8) | (val & 0x30u8)) & 0xCF == cur & 0xCF,
        0x10u8 & 0x30u8 == 0x10u8,
        0x00u8 & 0x30u8 == 0x00u8,
        0x20u8 | 0x03u8 == 0x23u8,
        ((cur & 0xFDu8) | 0u8) & 0x02 == 0,
        ((cur & 0xFDu8) | 0u8) & 0xFD == cur & 0xFD,
        ((cur & 0xFFu8) | 0x02u8) & 0x02 == 0x02,
        ((cur & 0xFFu8) | 0x02u8) & 0xFD == cur & 0xFD,
        (((cur & 0xFFu8) | 0x02u8) & 0xFDu8) | 0u8 == cur & 0xFDu8,
{
}

/// Lifting and restoring the hop mask touches that bit alone, and lifting undoes restoring.
pub proof fn hop_mask_touches_one_bit(cur: u8)
    ensures
        ({
            let lift = RegOp::Update { addr: 0x11, keep: 0xFD, set: 0 };
            let mask = RegOp::Update { addr: 0x11, keep: 0xFF, set: 0x02 };
            &&& lift.written(cur) & 0x02 == 0
            &&& lift.written(cur) & 0xFD == cur & 0xFD
            &&& mask.written(cur) & 0x02 == 0x02
            &&& mask.written(cur) & 0xFD == cur & 0xFD
            &&& lift.written(mask.written(cur)) == lift.written(cur)
        }),
{
    lemma_register_bits(cur, 0);
}

/// Setting the detector leaves the reserved bits of its register alone and replaces the code.
pub proof fn detector_keeps_the_reserved_bits(cur: u8, opt: u8)
    ensures
        ({
            let op = RegOp::Update { addr: 0x31, keep: 0x78, set: opt & 0x07 };
            &&& op.written(cur) & 0x78 == cur & 0x78
            &&& op.written(cur) & 0x07 == opt & 0x07
            &&& op.written(cur) & 0x80 == 0
        }),
{
    lemma_register_bits(cur, opt);
}

/// What a register holds behind a list of accesses, where it held `cur` before.
pub open spec fn left_in(ops: Seq<RegOp>, addr: u8, cur: u8) -> u8
    decreases ops.len(),
{
    if ops.len() == 0 {
        cur
    } else {
        let before = left_in(ops.drop_last(), addr, cur);
        if ops.last().target() == addr {
            ops.last().written(before)
        } else {
            before
        }
    }
}

/// Once the detector is set, its registers hold the code and the threshold that were asked for, with
/// the reserved bits as they were, and no other register has changed; writing the pair again later
/// puts both back as they stood.
pub proof fn the_detector_holds_its_codes(opt: u8, thresh: u8, addr: u8, cur: u8, later: u8)
    ensures
        ({
            let ops = detector_ops(opt, thresh);
            let again = detector_again_ops(left_in(ops, 0x31, cur), thresh);
            &&& left_in(ops, 0x37, cur) == thresh
            &&& left_in(ops, 0x31, cur) & 0x07 == opt & 0x07
            &&& left_in(ops, 0x31, cur) & 0x78 == cur & 0x78
            &&& addr != 0x31 && addr != 0x37 ==> left_in(ops, addr, cur) == cur
            &&& left_in(again, 0x31, later) == left_in(ops, 0x31, cur)
            &&& left_in(again, 0x37, later) == thresh
            &&& addr != 0x31 && addr != 0x37 ==> left_in(again, addr, cur) == cur
        }),
{
    reveal_with_fuel(left_in, 3);
    lemma_register_bits(cur, opt);
    let ops = detector_ops(opt, thresh);
    assert(ops.drop_last().drop_last() =~= Seq::<RegOp>::empty());
    let again = detector_again_ops(left_in(ops, 0x31, cur), thresh);
    assert(again.drop_last().drop_last() =~= Seq::<RegOp>::empty());
}

/// A detector pair is pulled to the nearest that the chip specifies: a threshold inside its span
/// stays, one outside goes to the nearer end.
pub proof fn the_detector_stays_in_its_span(v: u8, w: u8)
    ensures
        0x0A <= thresh_in_span(v) <= 0x0C,
        0x0A <= v <= 0x0C ==> thresh_in_span(v) == v,
        v <= w ==> thresh_in_span(v) <= thresh_in_span(w),
        thresh_in_span(v) != v ==> thresh_in_span(v) == 0x0A || thresh_in_span(v) == 0x0C,
{
}

/// The gain is the greatest with either setting, and boosting the current adds only the boost.
pub proof fn boosting_adds_only_the_boost()
    ensures
        gain_register(false) == 0x20,
        gain_register(true) == gain_register(false) | 0x03,
{
    lemma_register_bits(0, 0);
}

/// Once the carrier is retuned its three registers hold the word, and no other register has changed;
/// the least significant byte, which makes the chip take all three, is written last.
pub proof fn the_carrier_registers_hold_the_word(frf: u32, addr: u8, cur: u8)
    requires
        frf <= 0xFF_FFFF,
    ensures
        ({
            let ops = carrier_ops(frf);
            &&& left_in(ops, 0x06, cur) * 65_536 + left_in(ops, 0x07, cur) * 256 + left_in(
                ops,
                0x08,
                cur,
            ) == frf
            &&& addr < 0x06 || addr > 0x08 ==> left_in(ops, addr, cur) == cur
            &&& ops.last().target() == 0x08
            &&& ops.len() == 3
        }),
{
    reveal_with_fuel(left_in, 4);
    let ops = carrier_ops(frf);
    assert(ops.drop_last().drop_last().drop_last() =~= Seq::<RegOp>::empty());
    frf_bytes_round_trip(frf);
}

/// A carrier's word is the whole number of steps of `32 MHz / 2^19` that fit below the carrier, so a
/// higher carrier never has a lower word.
pub proof fn higher_carriers_have_higher_words(a: u32, b: u32)
    requires
        a <= b,
    ensures
        carrier_word_of(a) <= carrier_word_of(b),
        carrier_word_of(a) * 32_000_000 <= a as int * 524_288,
        a as int * 524_288 < (carrier_word_of(a) + 1) * 32_000_000,
{
}

/// A raw reading counts single dB, from -157 dBm on above the middle of the band and from -164 dBm on
/// below it.
pub proof fn a_reading_counts_in_db(raw: u8, freq_hz: u32)
    ensures
        raw > 0 ==> inst_dbm(raw, freq_hz) == inst_dbm((raw - 1) as u8, freq_hz) + 1,
        freq_hz > 525_000_000 ==> inst_dbm(0, freq_hz) == -157,
        freq_hz <= 525_000_000 ==> inst_dbm(0, freq_hz) == -164,
{
}

/// Switching the hop interrupt on or off moves its own bit of the mask and clears its flag alone, by
/// writing a one where the flag stands; the pin's mapping changes the pin's own field alone. On its
/// way on the flag is cleared before the mask lifts.
pub proof fn the_hop_interrupt_is_switched(field: u8, addr: u8, cur: u8)
    ensures
        left_in(unmask_ops(), 0x11, cur) & 0x02 == 0,
        left_in(unmask_ops(), 0x11, cur) & 0xFD == cur & 0xFD,
        left_in(unmask_ops(), 0x12, cur) == 0x02,
        unmask_ops()[0].target() == 0x12,
        left_in(mask_ops(), 0x11, cur) & 0x02 == 0x02,
        left_in(mask_ops(), 0x11, cur) & 0xFD == cur & 0xFD,
        left_in(mask_ops(), 0x12, cur) == 0x02,
        left_in(dio1_ops(field), 0x40, cur) & 0x30 == field & 0x30,
        left_in(dio1_ops(field), 0x40, cur) & 0xCF == cur & 0xCF,
        addr != 0x11 && addr != 0x12 ==> left_in(unmask_ops(), addr, cur) == cur && left_in(
            mask_ops(),
            addr,
            cur,
        ) == cur,
        addr != 0x40 ==> left_in(dio1_ops(field), addr, cur) == cur,
{
    reveal_with_fuel(left_in, 3);
    lemma_register_bits(cur, field);
    assert(unmask_ops().drop_last().drop_last() =~= Seq::<RegOp>::empty());
    assert(mask_ops().drop_last().drop_last() =~= Seq::<RegOp>::empty());
    assert(dio1_ops(field).drop_last() =~= Seq::<RegOp>::empty());
}

/// Hopping is switched on with its period, its pin and its interrupt, and off with a period of 0, the
/// interrupt masked and the pin back; no other register changes either way.
pub proof fn hopping_is_switched(period: u8, addr: u8, cur: u8)
    ensures
        ({
            let on = crate::lora_node::hop::hop_ops(true, period);
            let off = crate::lora_node::hop::hop_ops(false, period);
            &&& left_in(on, 0x24, cur) == period
            &&& left_in(on, 0x40, cur) & 0x30 == 0x10 && left_in(on, 0x40, cur) & 0xCF == cur & 0xCF
            &&& left_in(on, 0x11, cur) & 0x02 == 0 && left_in(on, 0x11, cur) & 0xFD == cur & 0xFD
            &&& left_in(off, 0x24, cur) == 0
            &&& left_in(off, 0x40, cur) & 0x30 == 0x00 && left_in(off, 0x40, cur) & 0xCF == cur
                & 0xCF
            &&& left_in(off, 0x11, cur) & 0x02 == 0x02 && left_in(off, 0x11, cur) & 0xFD == cur
                & 0xFD
            &&& addr != 0x24 && addr != 0x40 && addr != 0x11 && addr != 0x12 ==> left_in(
                on,
                addr,
                cur,
            ) == cur && left_in(off, addr, cur) == cur
            &&& on[0].target() == 0x40 && on[1].target() == 0x24
            &&& off[0].target() == 0x24
        }),
{
    reveal_with_fuel(left_in, 5);
    lemma_register_bits(cur, 0x10);
    lemma_register_bits(cur, 0x00);
    let on = crate::lora_node::hop::hop_ops(true, period);
    let off = crate::lora_node::hop::hop_ops(false, period);
    assert(on.drop_last().drop_last().drop_last().drop_last() =~= Seq::<RegOp>::empty());
    assert(off.drop_last().drop_last().drop_last().drop_last() =~= Seq::<RegOp>::empty());
}

} // verus!
