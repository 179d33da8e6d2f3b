//! The FLRC link on concrete values.

use ndn_radio::flrc_link::{
    apply, apply_modem, bitrate_of_code, build_frame, configure, configure_with, cr_of_code, crc_bytes,
    preamble_bits, preamble_from_bits, retune, set_crc_off, set_payload_len, settle_before_tx,
    unpack_frame, whiten, AgcPblLen, Crc, FlrcBitrate, FlrcCr, FlrcParams, LinkOp, LinkState,
    PacketParams, PAYLOAD_MAX,
};
use ndn_radio::lab::pattern::{
    agreement, better, count_hits, count_lead, drift_bits, drift_field, expect, offset_carrier,
    pattern_of, ramp_frame, xor_mask, Pattern, Step, OFFSETS_KHZ,
};
use ndn_radio::lab::timing::{
    clear_errors, next_slot, read_number, report, slot_of, slot_wait_ms, sync_ticks, tag_frame, Slots,
    Arrival, Arrivals, RxCount, SlotTally, Spread, TAG_M3, TAG_M4,
};

#[test]
fn whitening_twice_is_nothing() {
    let mut b: Vec<u8> = (0u8..48).collect();
    whiten(&mut b);
    assert_ne!(b, (0u8..48).collect::<Vec<u8>>());
    let mut mask = [0u8; 8];
    whiten(&mut mask);
    assert_eq!(mask, [0xff, 0xc1, 0xfb, 0xe8, 0x4c, 0x90, 0x72, 0x8b]);
    // The register starts with all ones, so the first byte is inverted.
    assert_eq!(b[0], 0xff);
    whiten(&mut b);
    assert_eq!(b, (0u8..48).collect::<Vec<u8>>());
}

#[test]
fn payloads_come_out_of_their_frames() {
    for n in [0usize, 1, 46, PAYLOAD_MAX] {
        let payload: Vec<u8> = (0..n).map(|i| (i * 3) as u8).collect();
        let mut air = build_frame(&payload).unwrap();
        assert_eq!(unpack_frame(&mut air), Some(n));
        assert_eq!(&air[1..1 + n], &payload[..]);
    }
    assert!(build_frame(&[0u8; 48]).is_none());
    let mut noise = [0u8; 48];
    noise[0] = 0xff ^ 48;
    assert_eq!(unpack_frame(&mut noise), None);
    assert_eq!(unpack_frame(&mut []), None);
}

#[test]
fn rungs_codings_and_preambles() {
    assert_eq!(bitrate_of_code(0), Some(FlrcBitrate::Br2600));
    assert_eq!(bitrate_of_code(7), Some(FlrcBitrate::Br0260));
    assert_eq!(bitrate_of_code(8), None);
    assert_eq!(cr_of_code(1), Some(FlrcCr::Cr34));
    assert_eq!(cr_of_code(2), Some(FlrcCr::Uncoded));
    assert_eq!(cr_of_code(4), None);
    assert_eq!(preamble_from_bits(5), Some(AgcPblLen::Len8Bits));
    assert_eq!(preamble_from_bits(32), Some(AgcPblLen::Len32Bits));
    assert_eq!(preamble_from_bits(3), None);
    assert_eq!(preamble_from_bits(33), None);
    assert_eq!(preamble_bits(AgcPblLen::Len12Bits), 12);
    assert_eq!(crc_bytes(Crc::CrcOff), 0);
    assert_eq!(crc_bytes(Crc::Crc24), 3);
    for c in 0..8u8 {
        assert_eq!(bitrate_of_code(c).unwrap().code(), c);
    }
}

#[test]
fn the_default_link() {
    let l = LinkState::default();
    assert_eq!(l.freq_hz, 915_000_000);
    assert_eq!(l.tx_power_dbm(), 6);
    assert_eq!(l.airtime_us(), FlrcParams::default().airtime_us());
    assert_eq!(l.airtime_ms_be(), [0, 1]);
    assert!(l.flrc_params() == FlrcParams::default());
    let odd = LinkState { tx_power_half_db: -3, ..l };
    assert_eq!(odd.tx_power_dbm(), -1);
    assert!(set_crc_off() == PacketParams { preamble: AgcPblLen::Len32Bits, crc: Crc::CrcOff, pld_len: 48 });
    assert_eq!(set_payload_len(20).pld_len, 20);
    assert_eq!(set_payload_len(2).pld_len, 6);
}

#[test]
fn the_radio_is_programmed_in_order() {
    let link = LinkState { freq_hz: 868_000_000, ..LinkState::default() };
    assert!(apply(&link) == vec![LinkOp::Chain { link }]);
    assert!(configure_with(&link) == vec![LinkOp::Chain { link }, LinkOp::RouteIrq]);
    assert!(configure() == configure_with(&LinkState::default()));
    assert!(retune(&link) == vec![LinkOp::Chain { link }, LinkOp::ListenContinuously]);
    assert!(settle_before_tx() == vec![LinkOp::StartSynthesizer, LinkOp::WaitUs { us: 500 }]);
    assert!(apply_modem(&link.flrc_params()) == vec![
        LinkOp::Modulation { bitrate: FlrcBitrate::Br2600, coding: FlrcCr::Cr34 },
        LinkOp::DcdcWorkaround,
        LinkOp::Packet {
            params: PacketParams { preamble: AgcPblLen::Len32Bits, crc: Crc::Crc16, pld_len: 48 },
        },
        LinkOp::Syncword { word: 0xCD05_CAFE },
    ]);
}

#[test]
fn patterns_are_counted() {
    let f = ramp_frame();
    assert_eq!(count_lead(Pattern::Ramp, &f), 48);
    assert_eq!(count_hits(Pattern::Ramp, &f), 48);
    let mut g = f;
    g[10] = 0;
    assert_eq!(count_lead(Pattern::Ramp, &g), 10);
    assert_eq!(count_hits(Pattern::Ramp, &g), 47);
    assert_eq!(expect(Pattern::Flat { byte: 0x55 }, 9), 0x55);
    assert!(pattern_of(b"aa") == Pattern::Flat { byte: 0xaa });
    assert!(pattern_of(b"00") == Pattern::Flat { byte: 0 });
    assert!(pattern_of(b"zz") == Pattern::Ramp);
    let mut s = Step::new();
    assert!(s.averages().is_none());
    s.count(Pattern::Ramp, &f);
    s.count(Pattern::Ramp, &g);
    assert_eq!(s.averages(), Some((29, 47)));
    assert_eq!((s.n, s.lead_max, s.perfect), (2, 48, 1));
    assert!(s.wants(1, 2) && !s.wants(2, 2));
    assert_eq!(better((0, 5), 7, 5), (0, 5));
    assert_eq!(better((0, 5), 7, 6), (7, 6));
}

#[test]
fn sweeps_and_masks() {
    assert_eq!(OFFSETS_KHZ.len(), 13);
    assert_eq!(offset_carrier(-60), 914_940_000);
    assert_eq!(drift_field(0x0000_03C0), 30);
    assert_eq!(drift_bits(30), 0x3C0);
    let f = ramp_frame();
    let m = xor_mask(&f);
    assert_eq!(m, [0u8; 48]);
    let mut g = f;
    g[3] = 0xff;
    assert_eq!(agreement(&m, &xor_mask(&g)), 47);
}

#[test]
fn numbered_frames_are_counted() {
    let f = tag_frame(0x0102_0304, &TAG_M3);
    assert_eq!(f, b"\x01\x02\x03\x04NDN-M3");
    assert_eq!(read_number(&f, &TAG_M3), Some(0x0102_0304));
    assert_eq!(read_number(&f, &TAG_M4), None);
    assert_eq!(read_number(&f[..9], &TAG_M3), None);
    let mut c = RxCount::new();
    assert!(!c.on_frame(10));
    for s in 12..36 {
        c.on_frame(s);
    }
    c.bad_crc();
    assert_eq!(c.got, 25);
    assert_eq!(c.expected_and_lost(), (26, 1));
}

#[test]
fn only_consecutive_arrivals_are_timed() {
    let mut a = Arrivals::new();
    assert!(a.on_arrival(5, 100) == Arrival::First);
    assert!(a.on_arrival(6, 400) == Arrival::Consecutive { ticks: 300 });
    assert!(a.on_arrival(8, 900) == Arrival::Gap);
    assert_eq!(a.gaps, 1);
    assert_eq!(sync_ticks(1_000, 200), 900);
}

#[test]
fn slots_stay_ahead() {
    assert_eq!(next_slot(320_000, 0), (320_000, 0));
    assert_eq!(next_slot(320_000, 300_000), (640_000, 1));
    assert_eq!(next_slot(320_000, 1_000_000), (1_280_000, 3));
    // Across the wrap of the counter.
    let (t, n) = next_slot(u32::MAX - 1_000, u32::MAX - 500);
    assert_eq!((t, n), (318_999, 1));
    assert_eq!(slot_of(640_000), 2);
    assert_eq!(slot_wait_ms(320_000, 0), 23);
    assert_eq!(slot_wait_ms(0, 5), 3);
    let mut t = SlotTally::new();
    t.on_slot(true, Some((false, false)));
    t.on_slot(false, Some((true, false)));
    t.on_slot(false, Some((false, true)));
    t.on_slot(false, None);
    assert_eq!((t.armed, t.tx_done, t.busy_err, t.pll_err, t.silent), (4, 1, 1, 1, 1));
}

#[test]
fn chip_errors_have_names() {
    assert_eq!(clear_errors(), [0x01, 0x11]);
    assert!(report(&[0xff, 0xff, 0, 0]).is_none());
    assert_eq!(report(&[0, 0, 0x02, 0x05]).unwrap(), vec!["HF_XOSC_START", "PLL_LOCK", "RXFREQ_NO_FE_CAL"]);
    assert_eq!(report(&[0, 0, 0x20, 0x80]).unwrap(), vec!["IMG_CALIB", "SRC_CALIB"]);
}

#[test]
fn intervals_are_summed_up() {
    let mut s = Spread::new();
    assert_eq!(s.mean(), None);
    assert_eq!(s.peak_to_peak(), 0);
    for t in [320_010u32, 319_990, 320_001] {
        s.push(t);
    }
    assert_eq!((s.n, s.min, s.max, s.sum), (3, 319_990, 320_010, 960_001));
    assert_eq!(s.mean(), Some(320_000));
    assert_eq!(s.peak_to_peak(), 20);
    let mut wide = Spread::new();
    wide.push(u32::MAX);
    wide.push(u32::MAX);
    assert_eq!(wide.mean(), Some(u32::MAX));
}

#[test]
fn a_slot_is_armed_exactly_once() {
    let mut s = Slots::new(1_000);
    assert_eq!(s.turn(1_000), Some(321_000));
    assert_eq!(s.turn(200_000), None);
    assert_eq!(s.turn(289_000), None);
    // Too close to be armed: the next one.
    assert_eq!(s.turn(289_001), Some(641_000));
    assert_eq!((s.turn(1_700_000), s.advances), (Some(1_921_000), 5));
    // The counter wraps, and so do the slots.
    let mut w = Slots::new(u32::MAX - 1_000);
    assert_eq!(w.turn(u32::MAX - 1_000), Some(318_999));
    assert_eq!(w.turn(u32::MAX), None);
}
