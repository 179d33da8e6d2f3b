//! Serial codecs, text and registers on concrete values.

use ndn_radio::bytes::{as_byte, as_signed, get_be16_signed, get_be32, get_be64, get_le32, push_be16_signed, push_be64, push_le64};
use ndn_radio::regs::{
    clamp_det_opt, clamp_det_thresh, frf_of_hz, lna_reg, RegOp, SharedSpi, DET_OPT_KEEP, DET_OPT_MASK,
    DET_OPT_SF6, DET_OPT_SF7_12, DET_THRESH_SF6, DET_THRESH_SF7_12, DIO1_FHSS_CHANGE_CHANNEL, DIO1_KEEP,
    DIO1_RX_TIMEOUT, HOP_CHANNEL_MASK, HOP_CHANNEL_PLL_TIMEOUT, IRQ_FHSS_CHANGE_CHANNEL,
};
use ndn_radio::serial::{encode_frame, Parser};
use ndn_radio::text::{decimal_digits, hex_digits, BufWriter};

#[test]
fn frames_round_trip_behind_noise() {
    let mut p = Parser::new();
    let mut stream = vec![0x00, 0x7E, 0x7E, 0x11];
    stream.extend(encode_frame(0x06, &[]));
    stream.extend(encode_frame(0x81, &[1, 2, 3]));
    let mut got = Vec::new();
    for b in stream {
        if let Some(f) = p.push(b) {
            got.push((f.typ, f.payload));
        }
    }
    assert_eq!(got, vec![(0x06, vec![]), (0x81, vec![1, 2, 3])]);
}

#[test]
fn damaged_frames_are_dropped() {
    let mut bytes = encode_frame(0x02, &[9, 8]);
    let last = bytes.len() - 1;
    bytes[last] ^= 1;
    let mut p = Parser::new();
    assert!(bytes.iter().all(|b| p.push(*b).is_none()));
    // The parser is ready for the next one.
    let good = encode_frame(0x02, &[9, 8]);
    let mut n = 0;
    for b in good {
        if p.push(b).is_some() {
            n += 1;
        }
    }
    assert_eq!(n, 1);
}

#[test]
fn frame_layout() {
    let b = encode_frame(0x0A, &[0x10, 0x20]);
    assert_eq!(&b[..4], &[0x7E, 0xA5, 0x0A, 0x02]);
    assert_eq!(b.len(), 7);
    assert_eq!(b[6], 0x0A ^ 0x02 ^ 0x10 ^ 0x20);
}

#[test]
fn numbers_as_bytes() {
    let mut v = Vec::new();
    push_be16_signed(&mut v, -2);
    assert_eq!(v, vec![0xff, 0xfe]);
    assert_eq!(get_be16_signed(&v, 0), -2);
    let mut v = Vec::new();
    push_be64(&mut v, 0x0102_0304_0506_0708);
    assert_eq!(v, vec![1, 2, 3, 4, 5, 6, 7, 8]);
    assert_eq!(get_be64(&v, 0), 0x0102_0304_0506_0708);
    assert_eq!(get_be32(&v, 2), 0x0304_0506);
    assert_eq!(get_le32(&v, 0), 0x0403_0201);
    let mut v = Vec::new();
    push_le64(&mut v, 1);
    assert_eq!(v, vec![1, 0, 0, 0, 0, 0, 0, 0]);
    assert_eq!(as_byte(-1), 0xff);
    assert_eq!(as_signed(0x80), -128);
}

#[test]
fn lines_are_cut_at_their_buffer() {
    assert_eq!(decimal_digits(0), b"0");
    assert_eq!(decimal_digits(u64::MAX), u64::MAX.to_string().as_bytes());
    assert_eq!(hex_digits(0xBEEF, 8), b"0000BEEF");
    let mut w = BufWriter::new();
    w.write_str("a=");
    w.write_signed(i64::MIN);
    w.write_str(" ");
    w.write_hex(0x2f, 2);
    assert_eq!(w.as_slice(), b"a=-9223372036854775808 2F");
    for _ in 0..20 {
        w.write_dec(12345);
    }
    assert_eq!(w.as_slice().len(), 96);
}

#[test]
fn gain_register() {
    assert_eq!(lna_reg(false), 0x20);
    assert_eq!(lna_reg(true), 0x23);
}

#[test]
fn detector_registers_are_clamped() {
    assert_eq!(clamp_det_thresh(DET_THRESH_SF7_12), 0x0A);
    assert_eq!(clamp_det_thresh(DET_THRESH_SF6), 0x0C);
    assert_eq!(clamp_det_thresh(0x0B), 0x0B);
    for v in [0x00, 0x09] {
        assert_eq!(clamp_det_thresh(v), 0x0A);
    }
    for v in [0x0D, 0x18, 0xFF] {
        assert_eq!(clamp_det_thresh(v), 0x0C);
    }
    assert_eq!(clamp_det_opt(DET_OPT_SF7_12), 0x03);
    assert_eq!(clamp_det_opt(DET_OPT_SF6), 0x05);
    for v in [0x0A, 0x00, 0xFF, 0x0D] {
        assert_eq!(clamp_det_opt(v), 0x03);
    }
    assert_eq!(DET_OPT_KEEP & DET_OPT_MASK, 0);
    assert_eq!(DET_OPT_KEEP & 0x80, 0);
    assert_eq!(DIO1_FHSS_CHANGE_CHANNEL, 0x10);
    assert_eq!(DIO1_FHSS_CHANGE_CHANNEL & DIO1_KEEP, 0);
    assert_eq!(DIO1_RX_TIMEOUT, 0);
    assert_eq!(HOP_CHANNEL_PLL_TIMEOUT & HOP_CHANNEL_MASK, 0);
    assert_eq!(IRQ_FHSS_CHANGE_CHANNEL, 2);
}

#[test]
fn carrier_words() {
    assert_eq!(frf_of_hz(915_000_000), 0x00E4_C000);
    assert_eq!(frf_of_hz(902_000_000), 0x00E1_8000);
    assert_eq!(frf_of_hz(928_000_000), 0x00E8_0000);
    assert_eq!(frf_of_hz(903_500_000), (903_500_000u64 * 16_384 / 1_000_000) as u32);
    let ops = SharedSpi::write_frf(0x00E4_C012);
    let pairs: Vec<(u8, u8)> = ops.iter().map(|o| (o.addr(), o.resolve(0))).collect();
    assert_eq!(pairs, vec![(0x06, 0xE4), (0x07, 0xC0), (0x08, 0x12)]);
}

#[test]
fn register_accesses() {
    assert_eq!(SharedSpi::read_reg(0x1B), [0x1B, 0x00]);
    assert_eq!(SharedSpi::write_reg(0x24, 7), [0xA4, 7]);
    assert_eq!(SharedSpi::rssi_inst_dbm(100, 915_000_000), -57);
    assert_eq!(SharedSpi::rssi_inst_dbm(100, 433_000_000), -64);
    let op = RegOp::Update { addr: 0x11, keep: 0xF0, set: 0x02 };
    assert!(op.reads());
    assert_eq!(op.resolve(0xAB), 0xA2);
    // Masking the hop interrupt and letting it through touch one bit.
    let on = SharedSpi::unmask_hop_irq();
    let off = SharedSpi::mask_hop_irq();
    let mask_of = |ops: &Vec<RegOp>, cur: u8| ops.iter().filter(|o| o.addr() == 0x11).last().unwrap().resolve(cur);
    assert_eq!(mask_of(&on, 0xFF), 0xFD);
    assert_eq!(mask_of(&off, 0x00), 0x02);
    assert_eq!(SharedSpi::map_dio1(0x10)[0].resolve(0xFF), 0xDF);
}
