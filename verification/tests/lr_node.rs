//! The multi-modem node's decisions on concrete events.

use ndn_radio::flrc_link::{AgcPblLen, FlrcBitrate, FlrcCr, FlrcParams};
use ndn_radio::lora_node::node::PlaneAction;
use ndn_radio::lora_node::report::PlaneStats;
use ndn_radio::lr_node::bridge::{fmt_kv, Bridge, LrPlan, TxKind};
use ndn_radio::lr_node::clock::{wait_until, MacClock, WaitStep};
use ndn_radio::lr_node::flow::{PollEvent, PollNext, RadioStep, RxInfo};
use ndn_radio::lr_node::info::{cmd_bitmap_for, err_bits, error_flags};
use ndn_radio::lr_node::irq::{crc_error, dio_irq_mask, hop_irq, rx_done, tx_done, Timeline};
use ndn_radio::lr_node::phy::{
    check_hop, lora_bw_hz_of_code, lrfhss_bw_of_code, lrfhss_cr_of_code, HopError, LoraParams,
    LrfhssBw, LrfhssCr, LrfhssParams, Phy, PhyMode, PhyState, Profile,
};
use ndn_radio::lr_node::sense::{dbm_of, tx_timeout_ms, ListenAction, Sense};
use ndn_radio::serial::Frame;

fn profile() -> Profile {
    Profile {
        band_min_hz: 902_000_000,
        band_max_hz: 928_000_000,
        pwr_min_dbm: -9,
        pwr_max_dbm: 22,
        phy_bitmap: (1 << 0) | (1 << 5) | (1 << 7),
        flrc_start: FlrcParams::default(),
        lora_start: LoraParams { sf: 7, bw_hz: 125_000, cr: 1, preamble_syms: 8 },
        lrfhss_start: LrfhssParams { bw: LrfhssBw::Bw136p72, cr: LrfhssCr::Cr1p3, sync_headers: 2 },
        lrfhss_payload_max: 100,
        flrc_gran_ns: 10_000,
        lora_gran_ns: 10_000,
        lrfhss_gran_ns: 10_000,
        lora_sync16: 0x0012,
        lrfhss_sync16: 0x5678,
    }
}

fn node() -> Bridge {
    Bridge::new(profile(), 1, 0, 0)
}

fn refusal(p: LrPlan) -> Option<(u8, u8)> {
    match p {
        LrPlan::Reply { frames } if frames[0].typ == 0x8F => Some((frames[0].payload[0], frames[0].payload[1])),
        _ => None,
    }
}

fn only(p: LrPlan) -> Frame {
    match p {
        LrPlan::Reply { mut frames } => {
            assert_eq!(frames.len(), 1);
            frames.remove(0)
        }
        _ => panic!("a reply"),
    }
}

#[test]
fn interrupt_words_are_read_by_the_driver() {
    assert_eq!(dio_irq_mask(false), 0x002C_0000);
    assert_eq!(dio_irq_mask(true), 0x022C_1000);
    assert!(rx_done(0x0004_0000) && !rx_done(0xFFFB_FFFF));
    assert!(tx_done(0x0008_0000) && !tx_done(0xFFF7_FFFF));
    assert!(crc_error(0x0040_0000) && !crc_error(0xFFBF_FFFF));
    assert!(hop_irq(0x0000_1000) && hop_irq(0x0200_0000) && !hop_irq(0xFDFF_EFFF));
}

#[test]
fn error_words_are_read_by_the_driver() {
    let f = error_flags(&[0xFF, 0xFF, 0x21, 0x82]);
    let set: Vec<usize> = (0..14).filter(|k| f[*k]).collect();
    assert_eq!(set, vec![1, 7, 8, 13]);
    assert_eq!(err_bits(&f), 0x2182);
}

#[test]
fn the_timeline_counts_one_hop_per_word() {
    let mut t = Timeline::new();
    t.note_irq(0x0200_1000, 5);
    assert_eq!(t.trace.len(), 0);
    t.arm(3);
    for i in 0..4 {
        t.note_irq(0x0200_1000, 100 + i);
    }
    t.note_irq(0x0004_1000, 200);
    t.push_tx_keyed(300);
    assert_eq!(t.trace.len(), 6);
    assert_eq!(t.coalesced, 1);
    let b = t.trace.encode(16_000_000);
    assert_eq!(b[5 + 3 * 5], 0);
    assert_eq!(b[5 + 5 * 5], 0x82);
    t.arm(0);
    assert!(!t.armed());
    assert_eq!(t.trace.len(), 6);
    t.arm(2);
    assert_eq!(t.trace.len(), 0);
}

#[test]
fn the_clock_counts_wraps() {
    let mut c = MacClock::new(10);
    assert_eq!(c.now64(20), 20);
    assert_eq!(c.now64(5), (1 << 32) + 5);
    assert!(wait_until(100, 100) == WaitStep::Due);
    assert!(wait_until(99, 100) == WaitStep::Due);
    assert!(wait_until(3_300, 100) == WaitStep::Spin);
    assert!(wait_until(16_100, 100) == WaitStep::Sleep { us: 800 });
    assert!(wait_until(50, u32::MAX - 49) == WaitStep::Spin);
}

#[test]
fn energy_readings() {
    assert_eq!(dbm_of(180), -90);
    assert_eq!(dbm_of(181), -90);
    assert_eq!(dbm_of(0), 0);
    assert_eq!(dbm_of(65_535), 0);
    let mut s = Sense::new(0);
    assert_eq!(s.rng, 0x9E37_79B9);
    assert_eq!(s.snr_for(-50), 0);
    s.sampled(Some(200));
    assert_eq!(s.noise_floor_dbm, -100);
    assert_eq!(s.snr_for(-50), 50);
    s.sampled(Some(100));
    assert_eq!(s.activity, 1);
    s.sampled(None);
    assert!(s.cca_busy(Some(178)) && !s.cca_busy(Some(180)) && !s.cca_busy(None));
}

#[test]
fn listening_gives_up_after_all_attempts() {
    let mut s = Sense::new(7);
    s.lbt_max_attempts = 3;
    s.repeat = 2;
    let (mut l, mut a) = s.lbt_begin(20);
    let mut windows = Vec::new();
    let done = loop {
        a = match a {
            ListenAction::Wait { us } => {
                windows.push(us);
                s.lbt_waited(&mut l)
            }
            ListenAction::Cca { steps } => {
                assert_eq!(steps, 4_096);
                s.lbt_sensed(&mut l, Some(100))
            }
            ListenAction::Done { sent, attempts } => break (sent, attempts),
            _ => panic!("the channel was never clear"),
        };
    };
    assert_eq!(done, (false, 3));
    assert_eq!(windows.len(), 3);
    assert!(windows[0] < 1_000 && windows[1] < 2_000 && windows[2] < 4_000);
    assert_eq!((s.cad_busy, s.activity, s.defer), (3, 3, 1));
}

#[test]
fn busy_senses_below_the_limit_end_in_one_frame() {
    let st = PhyState::start(&profile());
    for busy in 0..3u8 {
        let mut s = Sense::new(7);
        s.lbt_max_attempts = 3;
        s.repeat = 2;
        let (mut l, mut a) = s.lbt_begin(20);
        let (mut met, mut loaded, mut keyed) = (0u8, 0, 0);
        let end = loop {
            a = match a {
                ListenAction::Wait { .. } => s.lbt_waited(&mut l),
                ListenAction::Cca { .. } if met < busy => {
                    met += 1;
                    s.lbt_sensed(&mut l, Some(100))
                }
                ListenAction::Cca { .. } => s.lbt_sensed(&mut l, Some(200)),
                ListenAction::Stage => {
                    loaded += 1;
                    s.lbt_staged(&l, &st, true)
                }
                ListenAction::Fire { .. } => {
                    keyed += 1;
                    s.lbt_fired(&l, false)
                }
                ListenAction::Done { sent, attempts } => break (sent, attempts),
            };
        };
        assert_eq!((end, loaded, keyed), ((false, busy), 1, 1));
        assert_eq!((s.cad_busy, s.activity, s.defer), (busy as u16, busy as u16, 1));
    }
}

#[test]
fn a_keyed_frame_is_followed_to_its_deadline() {
    let mut b = node();
    assert!(b.poll_tx(1_000, PollEvent::Turn { now: 999 }) == PollNext::Read);
    assert!(b.poll_tx(1_000, PollEvent::Word { word: None, stamp: 1 }) == PollNext::Rest);
    assert!(b.poll_tx(1_000, PollEvent::Word { word: Some(0x0004_0000), stamp: 2 }) == PollNext::Rest);
    assert!(b.poll_tx(1_000, PollEvent::Word { word: Some(0x0008_0000), stamp: 3 }) == PollNext::Sent);
    assert!(b.poll_tx(1_000, PollEvent::Turn { now: 1_000 }) == PollNext::GiveUp);
}

#[test]
fn a_bridge_starts_with_its_defaults() {
    let b = node();
    let s = Sense::new(b.sense.rng);
    assert!(b.sense == s);
    assert_eq!((s.thresh_dbm, s.repeat, s.cca_steps, s.lbt_cw_ms), (-90, 1, 4_096, 1));
    assert_eq!((s.lbt_max_backoff, s.lbt_max_attempts, s.activity, s.cad_busy, s.defer), (4, 6, 0, 0, 0));
    assert!(!b.tl.armed() && b.beacon_period_ms == 1_000 && !b.debug);
}

#[test]
fn every_opcode_of_the_bridge_is_answered() {
    for op in 0..=255u8 {
        for len in [0usize, 1, 3, 4, 8, 20] {
            let mut b = node();
            match b.handle_cmd(op, &vec![0u8; len], 0, 0) {
                LrPlan::Reply { frames } => assert!(!frames.is_empty() && frames[0].typ >= 0x82),
                LrPlan::Rssi => assert_eq!(b.rssi(None).typ, 0x86),
                LrPlan::Cad { .. } => assert_eq!(b.on_cad(None).typ, 0x85),
                LrPlan::Sense { .. } => assert_eq!(b.on_sense(None, None).typ, 0x8C),
                LrPlan::Transmit { kind, .. } => assert_eq!(b.tx_finished(kind, false, 0)[0].typ, 0x82),
                LrPlan::Listen { .. } => assert_eq!(b.lbt_finished(false, 1).typ, 0x82),
                LrPlan::SwitchPhy { to, .. } => assert_eq!(b.switch_done(to, None)[0].typ, 0x8B),
                LrPlan::Stats => assert_eq!(op, 0x13),
                plan => assert!(plan.wants_info()),
            }
        }
    }
}

#[test]
fn a_clear_channel_leads_to_the_frame() {
    let st = PhyState::start(&profile());
    let mut s = Sense::new(7);
    let (mut l, _) = s.lbt_begin(20);
    s.lbt_waited(&mut l);
    assert!(s.lbt_sensed(&mut l, None) == ListenAction::Stage);
    assert!(s.lbt_staged(&l, &st, true) == ListenAction::Fire { timeout_ms: 22 });
    assert!(s.lbt_fired(&l, true) == ListenAction::Done { sent: true, attempts: 0 });
    assert!(s.lbt_staged(&l, &st, false) == ListenAction::Done { sent: false, attempts: 0 });
    assert_eq!(s.defer, 1);
    assert_eq!(tx_timeout_ms(&st, 20), 22);
}

#[test]
fn modems_and_their_codes() {
    assert_eq!(Phy::from_code(5).unwrap().code(), 5);
    assert!(Phy::from_code(1).is_none());
    assert_eq!(lora_bw_hz_of_code(6), Some(500_000));
    assert_eq!(lora_bw_hz_of_code(3), None);
    assert!(lrfhss_cr_of_code(4).is_none() && lrfhss_bw_of_code(10).is_none());
    for c in 0..10u8 {
        assert_eq!(lrfhss_bw_of_code(c).unwrap().code(), c);
    }
    let mut st = PhyState::start(&profile());
    assert!(st.set_mod(3, 99, 2));
    assert_eq!(st.mod_triple(), [3, 0, 2]);
    assert!(!st.set_mod(8, 0, 0));
    assert_eq!(st.mod_triple(), [3, 0, 2]);
    st.set_phy(&profile(), Phy::Lora);
    assert!(st.set_mod(12, 5, 4));
    assert_eq!(st.mod_triple(), [12, 1, 4]);
    assert!(!st.set_mod(6, 0, 1) && !st.set_mod(7, 3, 1) && !st.set_mod(7, 0, 5));
    st.set_phy(&profile(), Phy::LrFhss);
    assert!(st.set_mod(0, 9, 3) && !st.set_mod(1, 0, 0));
    assert_eq!(st.mod_triple(), [0, 9, 3]);
    assert_eq!(st.sync_word(&profile()), 0x5678);
    assert_eq!(st.max_payload(&profile()), 100);
}

#[test]
fn power_is_cut_to_the_amplifier() {
    let p = profile();
    assert_eq!(p.dbm_to_half_db(10), 20);
    assert_eq!(p.dbm_to_half_db(127), 44);
    assert_eq!(p.dbm_to_half_db(-128), -18);
    assert!(p.advertised(Phy::LrFhss));
}

#[test]
fn hop_plans_are_checked_whole() {
    let p = profile();
    assert!(check_hop(&p, Phy::Flrc, 1, 8, &[915_000_000]) == Err(HopError::WrongPhy));
    assert!(check_hop(&p, Phy::Lora, 2, 8, &[915_000_000]) == Err(HopError::ReservedBits));
    assert!(check_hop(&p, Phy::Lora, 1, 8, &[915_000_000; 41]) == Err(HopError::TooDeep));
    assert!(check_hop(&p, Phy::Lora, 1, 0, &[915_000_000]) == Err(HopError::ZeroDwell));
    assert!(check_hop(&p, Phy::Lora, 1, 8, &[915_000_000, 1]) == Err(HopError::OutOfBand));
    assert!(check_hop(&p, Phy::Lora, 1, 8, &[915_000_000]) == Ok(true));
    assert!(check_hop(&p, Phy::LrFhss, 0, 0, &[]) == Ok(false));
}

#[test]
fn unknown_and_short_commands_are_refused() {
    let mut b = node();
    assert_eq!(refusal(b.handle_cmd(0x19, &[], 0, 0)), Some((0x19, 1)));
    assert_eq!(refusal(b.handle_cmd(0x99, &[], 0, 0)), Some((0x99, 1)));
    for op in [0x05, 0x0D, 0x16] {
        assert_eq!(refusal(b.handle_cmd(op, &[1, 2, 3], 0, 0)), Some((op, 2)));
    }
    for (op, n) in [(0x02, 3), (0x03, 2), (0x04, 0), (0x0B, 3), (0x12, 2), (0x18, 3), (0x1F, 7), (0x1E, 3), (0x1D, 0)] {
        assert_eq!(refusal(b.handle_cmd(op, &vec![0; n], 0, 0)), Some((op, 3)));
    }
}

#[test]
fn arguments_beyond_the_hardware_are_refused() {
    let mut b = node();
    assert_eq!(refusal(b.handle_cmd(0x02, &868_000_000u32.to_be_bytes(), 0, 0)), Some((0x02, 4)));
    assert_eq!(refusal(b.handle_cmd(0x03, &[8, 0, 0], 0, 0)), Some((0x03, 4)));
    assert_eq!(refusal(b.handle_cmd(0x0A, &[0, 22, 0], 0, 0)), Some((0x0A, 4)));
    assert_eq!(refusal(b.handle_cmd(0x0C, &[0, 33], 0, 0)), Some((0x0C, 4)));
    assert_eq!(refusal(b.handle_cmd(0x1C, &[2], 0, 0)), Some((0x1C, 4)));
    assert_eq!(refusal(b.handle_cmd(0x11, &[1, 1, 1], 0, 0)), Some((0x11, 4)));
    assert_eq!(refusal(b.handle_cmd(0x18, &1_000_001u32.to_be_bytes(), 0, 0)), Some((0x18, 4)));
    assert_eq!(refusal(b.handle_cmd(0x1D, &[1], 0, 0)), Some((0x1D, 4)));
    assert_eq!(refusal(b.handle_cmd(0x1E, &[1, 0, 8, 0], 0, 0)), Some((0x1E, 4)));
    let mut long = vec![0, 0, 0, 0];
    long.extend([0u8; 48]);
    assert_eq!(refusal(b.handle_cmd(0x18, &long, 0, 0)), Some((0x18, 4)));
}

#[test]
fn settings_are_taken_and_read_back() {
    let mut b = node();
    assert!(matches!(b.handle_cmd(0x02, &920_000_000u32.to_be_bytes(), 0, 0), LrPlan::Retune));
    assert!(matches!(b.handle_cmd(0x04, &[0xF6], 0, 0), LrPlan::Retune));
    assert!(matches!(b.handle_cmd(0x03, &[7, 0, 3], 0, 0), LrPlan::Retune));
    assert!(matches!(b.handle_cmd(0x0C, &[0, 9], 0, 0), LrPlan::Retune));
    assert!(b.st.mode == PhyMode::Flrc(FlrcParams {
        bitrate: FlrcBitrate::Br0260,
        coding: FlrcCr::Cr23,
        preamble: AgcPblLen::Len12Bits,
    }));
    b.sense.cad_busy = 0x0102;
    b.sense.defer = 3;
    let f = b.info(Some((4, 2)), Some([0, 0, 0xC0, 0x04]));
    assert_eq!(f.typ, 0x83);
    assert_eq!(
        f.payload,
        vec![0x24, 0xCA, 0xFE, 0x00, 0x04, 0x36, 0xD6, 0x16, 0x00, 7, 0, 3, 0xF7, 0, 0, 1, 2, 0, 3]
    );
    let g = b.info(None, None);
    assert_eq!(&g.payload[..5], &[0xFF, 0xCA, 0xFE, 0, 0]);
}

#[test]
fn sensing_is_configured() {
    let mut b = node();
    assert!(matches!(b.handle_cmd(0x12, &[0xFF, 0xB0, 2], 0, 0), LrPlan::Info));
    assert_eq!((b.sense.thresh_dbm, b.sense.repeat), (-80, 2));
    match b.handle_cmd(0x0A, &[4, 0, 0], 0, 0) {
        LrPlan::CadParams { steps, thresh } => assert_eq!((steps, thresh), (65_536, 80)),
        _ => panic!("detector"),
    }
    assert!(matches!(b.handle_cmd(0x08, &[], 0, 0), LrPlan::Cad { steps: 65_536 }));
    assert!(matches!(b.handle_cmd(0x1C, &[1], 0, 0), LrPlan::RxGain { gain: 13 }));
    assert!(matches!(b.handle_cmd(0x1C, &[0], 0, 0), LrPlan::RxGain { gain: 0 }));
    let f = b.on_cad(Some(100));
    assert_eq!((f.typ, f.payload), (0x85, vec![1]));
    let f = b.on_sense(None, Some(180));
    assert_eq!((f.typ, f.payload), (0x8C, vec![0, 1, 0xFF, 0xA6]));
    let f = b.rssi(None);
    assert_eq!((f.typ, f.payload), (0x86, vec![0, 0]));
    // Resetting the counters leaves the activity alone.
    b.sense.cad_busy = 5;
    assert!(matches!(b.handle_cmd(0x14, &[], 0, 0), LrPlan::ResetPlane));
    assert_eq!((b.sense.cad_busy, b.sense.activity), (0, 1));
}

#[test]
fn capabilities_follow_the_modem() {
    let mut b = node();
    let c = only(b.handle_cmd(0x1A, &[], 0, 0));
    assert_eq!(c.payload.len(), 34);
    assert_eq!(&c.payload[..2], &[3, 2]);
    assert_eq!(&c.payload[10..12], &[0xF7, 22]);
    assert_eq!(&c.payload[12..17], &[0x00, 0xF4, 0x24, 0x00, 3]);
    assert_eq!(&c.payload[17..19], &[0, 47]);
    assert_eq!(&c.payload[19..23], &[0xBD, 0xBF, 0xDF, 0xDE]);
    assert_eq!(&c.payload[23..25], &[0, 0]);
    assert_eq!(&c.payload[29..], &[0, 0, 0, 0xA1, 5]);
    assert_eq!(cmd_bitmap_for(Phy::Lora), 0xFDBF_DFDE);
    match b.handle_cmd(0x1D, &[0], 0, 0) {
        LrPlan::SwitchPhy { to, prev } => {
            assert_eq!(to.code(), 0);
            assert!(matches!(prev.mode, PhyMode::Flrc(_)));
        }
        _ => panic!("switch"),
    }
    let c = only(b.handle_cmd(0x1A, &[], 0, 0));
    assert_eq!(&c.payload[17..19], &[0, 247]);
    assert_eq!(&c.payload[23..25], &[7, 12]);
    assert_eq!(c.payload[33], 0);
}

#[test]
fn a_refused_modem_is_taken_back() {
    let mut b = node();
    b.st.freq_hz = 920_000_000;
    let prev = match b.handle_cmd(0x1D, &[7], 0, 0) {
        LrPlan::SwitchPhy { prev, .. } => prev,
        _ => panic!("switch"),
    };
    let steps = b.switch_applied(prev, false);
    assert!(steps == vec![RadioStep::ClearErrors, RadioStep::Apply]);
    assert!(matches!(b.st.mode, PhyMode::Flrc(_)));
    assert_eq!(b.st.freq_hz, 920_000_000);
    assert!(b.switch_reverted(true) == vec![RadioStep::ArmRx]);
    assert!(
        b.switch_reverted(false)
            == vec![RadioStep::ResetAndApply, RadioStep::SetIrq { mask: 0x002C_0000 }, RadioStep::ArmRx]
    );
    assert_eq!(b.switch_refused(Phy::LrFhss, 0x13).payload, vec![7, 0x13]);
}

#[test]
fn a_modem_that_cannot_listen_is_kept() {
    let mut b = node();
    let prev = match b.handle_cmd(0x1D, &[7], 0, 0) {
        LrPlan::SwitchPhy { prev, .. } => prev,
        _ => panic!("switch"),
    };
    let steps = b.switch_applied(prev, true);
    assert!(steps == vec![RadioStep::SetIrq { mask: 0x002C_0000 }, RadioStep::ArmRx]);
    assert_eq!(b.switch_armed(false).len(), 3);
    assert!(b.switch_armed(true).is_empty());
    let f = b.switch_done(Phy::LrFhss, Some(0x11));
    assert_eq!((f[0].typ, f[1].typ), (0x8B, 0x8D));
    assert_eq!(f[1].payload, vec![7, 0x11]);
    assert_eq!(b.switch_done(Phy::LrFhss, None).len(), 1);
    // One third rate, no payload: (2 * 8 + 6) * 3 = 66 bits in two blocks.
    assert_eq!(b.probe_blocks(), 2);
}

#[test]
fn hopping_routes_its_interrupts() {
    let mut b = node();
    b.st.set_phy(&profile(), Phy::LrFhss);
    b.debug = true;
    let mut pl = vec![1, 0, 8, 2];
    pl.extend(915_000_000u32.to_be_bytes());
    assert_eq!(refusal(b.handle_cmd(0x1E, &pl, 0, 0)), Some((0x1E, 3)));
    pl.extend(916_000_000u32.to_be_bytes());
    match b.handle_cmd(0x1E, &pl, 0, 0) {
        LrPlan::HopSet { mask, probe } => assert_eq!((mask, probe), (0x022C_1000, true)),
        _ => panic!("hop"),
    }
    assert_eq!(b.st.hop.freqs, vec![915_000_000, 916_000_000]);
    b.tx_keyed(1_000);
    assert!(!b.tx_poll(0x0000_1000, 1_010));
    assert!(b.tx_poll(0x0008_0000, 1_020));
    match b.handle_cmd(0x20, &[], 0, 0) {
        LrPlan::Reply { frames } => {
            assert_eq!(frames.len(), 2);
            assert_eq!(&frames[0].payload[..5], &[0x00, 0xF4, 0x24, 0x00, 2]);
            assert_eq!(&frames[0].payload[5..10], &[0x80, 0, 0, 0x03, 0xE8]);
            assert_eq!(frames[1].payload, b"HOPTRACE coalesced=0");
        }
        _ => panic!("trace"),
    }
    match b.handle_cmd(0x1E, &[0, 0, 0, 0], 0, 0) {
        LrPlan::HopSet { mask, .. } => assert_eq!(mask, 0x002C_0000),
        _ => panic!("hop off"),
    }
    assert_eq!(b.tl.trace.len(), 2);
    assert_eq!(b.probe_refused(true, 5).payload, b"HOP write REFUSED chip=5");
    assert_eq!(b.probe_refused(false, 5).payload, b"HOP read REFUSED chip=5");
    assert_eq!(b.probe_read(&[0, 0, 0, 0, 1, 2]).payload, b"HOP readback f0=258");
}

#[test]
fn transmissions_are_announced_and_reported() {
    let mut b = node();
    match b.handle_cmd(0x01, &[1, 2, 3], 0, 0) {
        LrPlan::Transmit { payload, kind, wait } => {
            assert_eq!(payload, vec![1, 2, 3]);
            assert!(kind == TxKind::Plain && !wait);
        }
        _ => panic!("transmit"),
    }
    let (started, timeout) = b.tx_staged(3);
    assert_eq!((started.typ, started.payload), (0x88, vec![0, 1]));
    assert_eq!(timeout, 22);
    assert!(b.flrc_unit(&[0; 47]).is_some() && b.flrc_unit(&[0; 48]).is_none());
    let f = b.tx_finished(TxKind::Plain, true, 0);
    assert_eq!((f[0].typ, f[0].payload.clone()), (0x82, vec![1, 0]));
    b.debug = true;
    let f = b.tx_finished(TxKind::At { target: 100 }, false, 107);
    assert_eq!(f[0].payload, b"TX_AT late_ticks=7");
    assert_eq!(f[1].payload, vec![0, 0]);
    let f = b.tx_finished(TxKind::Abs { target: 8 }, true, 7);
    assert_eq!(f[0].payload, b"TX_AT_ABS late_ticks=4294967295");
    assert_eq!(b.lbt_finished(true, 2).payload, vec![1, 2]);
    assert_eq!(b.n_tx, 4);
    assert!(matches!(b.handle_cmd(0x0E, &[9], 0, 0), LrPlan::Listen { .. }));
}

#[test]
fn schedules_are_placed_on_the_counter() {
    let mut b = node();
    match b.handle_cmd(0x18, &[0, 0, 0, 10, 7], u32::MAX, 0) {
        LrPlan::Transmit { payload, kind, wait } => {
            assert_eq!(payload, vec![7]);
            assert!(kind == TxKind::At { target: 159 } && wait);
        }
        _ => panic!("relative"),
    }
    b.clock = MacClock { hi: 2, last: 500 };
    let mut pl = ((2u64 << 32) + 1_000).to_be_bytes().to_vec();
    pl.push(9);
    match b.handle_cmd(0x1F, &pl, 600, 0) {
        LrPlan::Transmit { kind, wait, .. } => assert!(kind == TxKind::Abs { target: 1_000 } && wait),
        _ => panic!("absolute"),
    }
    // A target in the past goes out at once, however long it is past.
    pl[..8].copy_from_slice(&700u64.to_be_bytes());
    match b.handle_cmd(0x1F, &pl, 700, 0) {
        LrPlan::Transmit { wait, .. } => assert!(!wait),
        _ => panic!("past"),
    }
    pl[..8].copy_from_slice(&((2u64 << 32) + 16_001_000).to_be_bytes());
    assert_eq!(refusal(b.handle_cmd(0x1F, &pl, 800, 0)), Some((0x1F, 4)));
    let f = only(b.handle_cmd(0x17, &[], 5, 0));
    assert_eq!(f.payload, ((3u64 << 32) + 5).to_be_bytes().to_vec());
}

#[test]
fn received_frames_are_stamped_and_delivered() {
    let mut b = node();
    assert_eq!(b.on_irq(0x0044_0000, 77), (true, false));
    assert_eq!(b.on_frame(false, Some(RxInfo { rssi_dbm: -50, snr_db: None })), None);
    assert_eq!(b.on_frame(true, None), None);
    b.sense.noise_floor_dbm = -100;
    assert_eq!(b.on_frame(true, Some(RxInfo { rssi_dbm: -50, snr_db: None })), Some((-50, 50)));
    assert_eq!(b.on_frame(true, Some(RxInfo { rssi_dbm: -50, snr_db: Some(9) })), Some((-50, 9)));
    assert_eq!(b.n_rx, 2);
    let p = b.on_heard(PlaneAction::RelayAndDeliver, &[1, 2], -50, 9, 77);
    assert!(p.relay && p.rearm && p.serve.is_none() && p.log.is_none());
    assert_eq!(p.deliver.unwrap().payload, vec![0xFF, 0xCE, 0, 9, 0, 0, 0, 77, 1, 2]);
    b.debug = true;
    let p = b.on_heard(PlaneAction::Serve { data: vec![4] }, &[1, 2], -50, 9, 77);
    assert_eq!(p.log.unwrap().payload, b"RX served n=2");
    assert_eq!(p.serve, Some(vec![4]));
    let p = b.on_heard(PlaneAction::Drop, &[1, 2, 3], -50, 9, 77);
    assert_eq!(p.log.unwrap().payload, b"RX dropped n=3");
    assert!(p.deliver.is_none() && !p.rearm);
}

#[test]
fn beacons_and_background_samples_are_timed() {
    let mut b = node();
    assert!(b.beacon_due(10_000_000).is_none());
    assert!(matches!(b.handle_cmd(0x07, &[1, 2], 0, 500), LrPlan::Info));
    assert!(b.beacon_due(2_000_499).is_none());
    assert_eq!(b.beacon_due(2_000_500).unwrap(), b"LR2021-BEACON\0\0\0\0");
    assert_eq!(b.next_beacon, 4_000_500);
    assert!(b.beacon_sent(true).is_none());
    b.debug = true;
    assert_eq!(b.beacon_sent(false).unwrap().payload, b"BCN FAILED seq=1");
    assert_eq!(b.beacon_seq, 2);
    assert!(b.sense_due(0) && !b.sense_due(4_999) && b.sense_due(5_000));
}

#[test]
fn plane_commands() {
    let mut b = node();
    let mut pl = Vec::new();
    for i in 1..=9u64 {
        pl.extend(i.to_be_bytes());
    }
    match b.handle_cmd(0x10, &pl, 0, 0) {
        LrPlan::SetRelay { hashes } => assert_eq!(hashes, (1..=8).collect::<Vec<u64>>()),
        _ => panic!("relay"),
    }
    assert!(matches!(b.handle_cmd(0x11, &[1, 0, 0], 0, 0), LrPlan::Plane { serve: true, dedup: false }));
    b.sense.cad_busy = 6;
    b.sense.defer = 7;
    let f = b.stats(PlaneStats { rx: 1, filtered: 2, deduped: 3, served: 4, relayed: 5 });
    assert_eq!(f.payload.len(), 24);
    assert_eq!(&f.payload[16..], &[0, 0, 0, 5, 0, 6, 0, 7]);
    assert_eq!(fmt_kv("n=", 1234, 4), b"n=12");
}
