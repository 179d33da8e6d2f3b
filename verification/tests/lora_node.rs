//! The LoRa node's decisions on concrete events.

use ndn_radio::lora_node::command::Plan;
use ndn_radio::lora_node::csma::Csma;
use ndn_radio::lora_node::fire::{
    arm_rx, cad_end, fire_tx, stage_tx, start_cad, CadEvent, FireEvent, FireNext, IrqOutcome, Mode, RadioStep,
    Task, TxResult,
};
use ndn_radio::lora_node::hop::{Hop, HopTrace};
use ndn_radio::lora_node::lbt::{CadOutcome, LbtAction};
use ndn_radio::lora_node::node::{Node, PlaneAction, TimerPlan, WaitSet};
use ndn_radio::lora_node::opcode::{cmd_bit, is_implemented, CMD_BITMAP, CMD_BITMAP_EXT};
use ndn_radio::lora_node::outcome::{scan_next, ScanNext};
use ndn_radio::lora_node::params::{
    airtime_ms, bw_code_of_hz, bw_hz_of_code, cr_from, sf_from, tsym_us, Params, SCHED_GRAN_NS,
};
use ndn_radio::lora_node::report::{cap, PlaneStats};
use ndn_radio::lora_node::sched::SchedTx;
use ndn_radio::regs::SharedSpi;

fn refusal(p: Plan) -> Option<(u8, u8)> {
    match p {
        Plan::Reply { event } if event.typ == 0x8F => Some((event.payload[0], event.payload[1])),
        _ => None,
    }
}

#[test]
fn opcode_bitmaps() {
    assert_eq!(CMD_BITMAP, 0x003F_FFFE | 0x0180_0000 | 0xFC00_0000);
    assert_eq!(CMD_BITMAP_EXT, 1);
    assert_eq!(CMD_BITMAP & 1, 0);
    assert_eq!(CMD_BITMAP & cmd_bit(0x16), 0);
    assert_eq!(CMD_BITMAP & cmd_bit(0x19), 0);
    assert!(is_implemented(0x20) && is_implemented(0x1F) && !is_implemented(0x16));
    assert_eq!(SCHED_GRAN_NS, 99_000);
}

#[test]
fn wire_codes() {
    for (code, hz) in [(0, 125_000), (1, 250_000), (2, 500_000), (4, 125_000), (5, 250_000), (6, 500_000), (0x7F, 125_000)] {
        assert_eq!(bw_hz_of_code(code), hz);
    }
    assert_eq!(bw_code_of_hz(bw_hz_of_code(5)), 1);
    assert_eq!(bw_code_of_hz(bw_hz_of_code(6)), 2);
    assert_eq!((sf_from(12), sf_from(6), cr_from(4), cr_from(9)), (12, 9, 4, 1));
    assert_eq!(tsym_us(7, 125_000), 1024);
}

#[test]
fn capability_body() {
    let c = cap();
    assert_eq!(c.typ, 0x8B);
    assert_eq!(c.payload.len(), 34);
    assert_eq!(&c.payload[..2], &[3, 1]);
    assert_eq!(&c.payload[10..12], &[2, 20]);
    assert_eq!(&c.payload[17..19], &[0, 247]);
    assert_eq!(&c.payload[19..23], &CMD_BITMAP.to_be_bytes());
    assert_eq!(&c.payload[29..], &[0, 0, 0, 1, 0]);
}

#[test]
fn commands_are_refused_with_a_reason() {
    let mut n = Node::new();
    assert_eq!(refusal(n.handle_cmd(0x19, &[], 0)), Some((0x19, 1)));
    assert_eq!(refusal(n.handle_cmd(0x77, &[], 0)), Some((0x77, 1)));
    assert_eq!(refusal(n.handle_cmd(0x16, &[], 0)), Some((0x16, 2)));
    assert_eq!(refusal(n.handle_cmd(0x02, &[1, 2, 3], 0)), Some((0x02, 3)));
    assert_eq!(refusal(n.handle_cmd(0x1C, &[2], 0)), Some((0x1C, 4)));
    assert_eq!(refusal(n.handle_cmd(0x1D, &[5], 0)), Some((0x1D, 4)));
    assert_eq!(refusal(n.handle_cmd(0x1E, &[1, 0, 8, 2, 0, 0, 0, 0], 0)), Some((0x1E, 3)));
    assert_eq!(refusal(n.handle_cmd(0x1E, &[2, 0, 8, 0], 0)), Some((0x1E, 4)));
    assert_eq!(refusal(n.handle_cmd(0x18, &[0xff, 0, 0, 0, 1], 0)), Some((0x18, 4)));
}

#[test]
fn commands_set_what_they_name() {
    let mut n = Node::new();
    assert!(matches!(n.handle_cmd(0x04, &[30], 0), Plan::Info));
    assert_eq!(n.p.pwr, 20);
    match n.handle_cmd(0x03, &[12, 2, 4], 0) {
        Plan::Build { trial, preamble } => {
            assert_eq!((trial.sf, trial.bw_hz, trial.cr), (12, 500_000, 4));
            n.on_built(trial, preamble, true);
        }
        _ => panic!("modulation"),
    }
    assert_eq!((n.p.sf, n.p.bw_hz, n.p.cr), (12, 500_000, 4));
    assert!(matches!(n.handle_cmd(0x07, &[1, 3], 0), Plan::Info));
    assert!(n.beacon_on);
    assert!(matches!(n.handle_cmd(0x15, &[1], 0), Plan::DebugReport));
    assert!(matches!(n.handle_cmd(0x12, &[0xff, 0xa6, 0], 0), Plan::Info));
    assert_eq!((n.csma.rssi_thresh, n.csma.cad_repeat), (-90, 1));
    match n.handle_cmd(0x17, &[], 0x0102) {
        Plan::Reply { event } => assert_eq!((event.typ, event.payload), (0x8A, vec![0, 0, 0, 0, 0, 0, 1, 2])),
        _ => panic!("clock"),
    }
    match n.handle_cmd(0x0F, &[0, 0, 0, 0, 0, 0, 0, 9, 1], 0) {
        Plan::SetFilter { hashes } => assert_eq!(hashes, vec![9]),
        _ => panic!("filter"),
    }
    match n.handle_cmd(0x0A, &[0, 0x18, 0x0A], 0) {
        Plan::SetDetector { opt, thresh, log } => {
            assert_eq!((opt, thresh), (0x03, 0x0C));
            assert!(log.is_some());
        }
        _ => panic!("detector"),
    }
}

#[test]
fn a_failed_build_changes_nothing() {
    let mut n = Node::new();
    let before = n.p;
    if let Plan::Build { trial, preamble } = n.handle_cmd(0x02, &915_500_000u32.to_be_bytes(), 0) {
        n.on_built(trial, preamble, false);
    }
    assert!(n.p == before);
    assert_eq!(n.radio_errors, 1);
}

#[test]
fn the_schedule_holds_one_frame() {
    let mut n = Node::new();
    assert!(matches!(n.handle_cmd(0x18, &[0, 1, 0, 0, 7, 7], 1_000), Plan::Scheduled));
    assert!(n.sched.is_armed() && !n.sched.owns_radio());
    assert_eq!(n.sched.wake_at(), Some(1_000 + 65_536 - 1_510));
    // The second one is turned away, the first one stays.
    match n.handle_cmd(0x1F, &[0, 0, 0, 0, 0, 1, 0, 0, 5], 1_000) {
        Plan::Reply { event } => assert_eq!((event.typ, event.payload), (0x82, vec![0, 0])),
        _ => panic!("busy slot"),
    }
    assert_eq!(n.sched_buf, vec![7, 7]);
    assert!(matches!(n.on_timer(1_000), TimerPlan::Nothing));
    match n.on_timer(66_000) {
        TimerPlan::Stage { started, len, .. } => {
            assert_eq!(started.typ, 0x88);
            assert_eq!(len, 2);
        }
        _ => panic!("stage"),
    }
    assert!(n.on_staged(true).is_none());
    assert!(n.sched.owns_radio());
    assert!(n.wait_set() == WaitSet::CommandOrTimer);
    match n.on_timer(66_536) {
        TimerPlan::Fire { fire_at, .. } => assert_eq!(fire_at, 66_536),
        _ => panic!("fire"),
    }
    let done = n.on_fired(66_536, 66_540, true);
    assert_eq!((done.last().unwrap().typ, done.last().unwrap().payload[0]), (0x82, 1));
    assert!(n.sched == SchedTx::Idle);
}

#[test]
fn a_command_demotes_a_staged_frame() {
    let mut s = SchedTx::Staged { fire_at: 9_000, len: 10, air_ms: 5 };
    assert!(s.demote());
    assert!(s == SchedTx::Pending { fire_at: 9_000, stage_at: 9_000 - 1_550, len: 10, air_ms: 5 });
    assert!(!s.demote());
}

#[test]
fn backoff_gives_up_after_all_attempts() {
    let mut n = Node::new();
    n.csma.lbt_max_attempts = 2;
    n.csma.rng = 1;
    let (mut l, mut a) = n.lbt_begin(10);
    let mut busy = 0;
    loop {
        a = match a {
            LbtAction::Wait { ms } => {
                assert!(ms < 1 << 20);
                n.lbt_waited(&mut l)
            }
            LbtAction::Cad { .. } => {
                busy += 1;
                n.lbt_cad(&mut l, CadOutcome::Heard)
            }
            LbtAction::Done { sent, attempts } => {
                assert_eq!((sent, attempts), (false, 2));
                break;
            }
            _ => panic!("no energy sense was asked for"),
        };
    }
    assert_eq!(busy, 2);
    assert_eq!(n.csma.defer, 1);
    assert_eq!(n.csma.cad_busy_view(), 2);
}

#[test]
fn busy_channels_below_the_limit_end_in_one_transmission() {
    for busy in 0..4u8 {
        let mut n = Node::new();
        n.csma.lbt_max_attempts = 4;
        n.csma.cad_repeat = 2;
        n.csma.rssi_thresh = -80;
        n.csma.rng = 9;
        let (mut l, mut a) = n.lbt_begin(10);
        let (mut met, mut sent) = (0u8, 0);
        let end = loop {
            a = match a {
                LbtAction::Wait { .. } => n.lbt_waited(&mut l),
                // The detector finds the first busy channel, the energy the others.
                LbtAction::Cad { .. } if busy > 0 && met == 0 => {
                    met += 1;
                    n.lbt_cad(&mut l, CadOutcome::Heard)
                }
                LbtAction::Cad { .. } => n.lbt_cad(&mut l, CadOutcome::Clear),
                LbtAction::SenseRssi if met < busy => {
                    met += 1;
                    n.lbt_rssi(&mut l, Some(-80))
                }
                LbtAction::SenseRssi => n.lbt_rssi(&mut l, Some(-81)),
                LbtAction::Transmit { .. } => {
                    sent += 1;
                    n.lbt_sent(&l, true)
                }
                LbtAction::Done { sent, attempts } => break (sent, attempts),
            };
        };
        assert_eq!((end, sent), ((true, busy), 1));
        assert_eq!((n.csma.cad_busy, n.csma.defer), (busy as u16, 0));
    }
}

#[test]
fn the_generator_never_sticks() {
    let mut c = Csma::new();
    c.seed(&[0, 0, 0, 0, 0, 0], 0, 0);
    assert_eq!(c.rng, 0xA5A5_5A5A);
    for _ in 0..1000 {
        assert_ne!(c.next_rand(), 0);
    }
    c.rng = 1;
    assert_eq!(c.next_rand(), 270_369);
}

#[test]
fn the_trace_keeps_the_last_hops() {
    let mut t = HopTrace::new();
    for i in 0..40u64 {
        t.push(100 + i, i as u8, i % 2 == 0);
    }
    assert_eq!(t.len(), 32);
    assert_eq!(t.tx_flagged(), 16);
    let b = t.encode(1_000_000);
    assert_eq!(b.len(), 165);
    assert_eq!(&b[..5], &[0x00, 0x0F, 0x42, 0x40, 32]);
    assert_eq!(&b[5..10], &[0x88, 0, 0, 0, 108]);
}

#[test]
fn hops_follow_their_list() {
    let mut n = Node::new();
    let plan = n.handle_cmd(0x1E, &[1, 0, 8, 2, 0x36, 0x89, 0xCA, 0xC0, 0x36, 0x99, 0x0D, 0x00], 0);
    let list = match plan {
        Plan::SetHop { on, period, list } => {
            assert!(on);
            assert_eq!(period, 8);
            assert_eq!(list, vec![915_000_000, 916_000_000]);
            list
        }
        _ => panic!("hop"),
    };
    n.on_hop_set(true, 8, &list, true, true);
    assert!(n.hop.enabled);
    let to = n.hop.begin_hop(3, 77, false).unwrap();
    n.hop.finish_hop(to);
    assert_eq!(n.hop.hops, 1);
    n.on_hop_set(false, 0, &vec![], true, true);
    assert!(!n.hop.enabled);
    assert_eq!(n.p.freq_hz, 915_000_000);
}

#[test]
fn transmissions_end_as_the_driver_says() {
    let mut hop = Hop::new();
    let mut mode = Mode::Transmit;
    assert!(
        fire_tx(&mut hop, &mut mode, FireEvent::Keyed { ok: true }) == FireNext::Wait { first: None, hop: false }
    );
    assert!(fire_tx(&mut hop, &mut mode, FireEvent::Irq { ok: true }) == FireNext::ProcessIrq);
    assert!(mode == Mode::Transmit);
    assert!(
        fire_tx(&mut hop, &mut mode, FireEvent::Processed { outcome: IrqOutcome::Done })
            == FireNext::End { standby: false, clear_irq: false, result: TxResult::Sent }
    );
    assert!(mode == Mode::Standby);
    mode = Mode::Transmit;
    assert!(
        fire_tx(&mut hop, &mut mode, FireEvent::Timeout)
            == FireNext::End { standby: true, clear_irq: true, result: TxResult::TimedOut }
    );
    assert!(mode == Mode::Standby);
    mode = Mode::Detect;
    assert!(cad_end(&mut mode, CadEvent::Processed { detected: true }) == (CadOutcome::Heard, false));
    assert!(mode == Mode::Standby);
    assert!(cad_end(&mut mode, CadEvent::Timeout) == (CadOutcome::Failed, true));
}

#[test]
fn the_mode_follows_the_steps() {
    let mut n = Node::new();
    assert!(n.mode == Mode::Standby && n.must_arm_to_sense() && n.mode.to_standby().is_none());
    for s in &arm_rx(n.mode, &n.p, 8, None, None, false) {
        n.mode.stepped(s, true);
    }
    assert!(n.mode == Mode::Receive && !n.must_arm_to_sense());
    assert!(n.mode.to_standby() == Some(RadioStep::Standby));
    // A standby command that fails leaves the mode; a failed interrupt set-up does not.
    n.mode.stepped(&RadioStep::Standby, false);
    assert!(n.mode == Mode::Receive);
    n.mode.stepped(&RadioStep::Interrupts { task: Task::Transmit }, false);
    assert!(n.mode == Mode::Transmit);
    // Taking the radio back from a loaded frame finds the chip in standby.
    assert!(!n.preempt());
    assert!(n.mode == Mode::Transmit);
    assert!(matches!(n.handle_cmd(0x18, &[0, 1, 0, 0, 7], 1_000), Plan::Scheduled));
    assert!(n.on_staged(true).is_none());
    assert!(n.preempt());
    assert!(n.mode == Mode::Standby && n.sched.is_armed() && !n.sched.owns_radio());
}

#[test]
fn every_opcode_is_answered() {
    for op in 0..=255u8 {
        for len in [0usize, 1, 3, 5, 9, 20] {
            let mut n = Node::new();
            match n.handle_cmd(op, &vec![0u8; len], 1_000) {
                Plan::Reply { event } => assert!(event.typ >= 0x82 && event.typ <= 0x8F),
                Plan::Scheduled => {
                    assert!(n.sched.is_armed());
                    let answer = n.on_staged(false).unwrap();
                    assert_eq!((answer.typ, answer.payload), (0x82, vec![0, 0]));
                    assert!(!n.sched.is_armed());
                }
                Plan::Transmit { .. } | Plan::TransmitLbt { .. } => assert!(op == 0x01 || op == 0x0E),
                Plan::Cad { .. } => assert_eq!(n.on_cad(CadOutcome::Clear).typ, 0x85),
                Plan::Rssi => assert_eq!(n.on_rssi(None).typ, 0x86),
                Plan::ScanSf => assert_eq!(n.on_scanned(0, true).typ, 0x87),
                Plan::Sense { .. } => assert_eq!(n.on_sensed(None).typ, 0x8C),
                Plan::CheckPhy { want } => assert_eq!(n.on_phy(want, Some(0x80))[0].typ, 0x8B),
                Plan::Stats => assert_eq!(op, 0x13),
                plan => assert!(plan.wants_info()),
            }
        }
    }
}

#[test]
fn scans_find_the_lowest_factor() {
    assert!(matches!(scan_next(7, false), ScanNext::Listen { sf: 8 }));
    assert!(matches!(scan_next(9, true), ScanNext::Finish { found: 9 }));
    assert!(matches!(scan_next(12, false), ScanNext::Finish { found: 0 }));
}

#[test]
fn received_frames_go_where_the_plane_says() {
    let n = Node::new();
    let p = n.on_rx(5, PlaneAction::RelayAndDeliver);
    assert!(p.relay && p.deliver && p.serve.is_none() && p.disturbed && p.log.is_none());
    let p = n.on_rx(5, PlaneAction::Serve { data: vec![1] });
    assert!(!p.deliver && p.serve == Some(vec![1]) && p.disturbed);
    let p = n.on_rx(5, PlaneAction::Drop);
    assert!(!p.deliver && !p.relay && !p.disturbed);
}

#[test]
fn information_and_statistics() {
    let mut n = Node::new();
    n.radio_errors = 0x0102;
    let f = n.send_info(0x8D, 0x12, 70_000);
    assert_eq!(f.typ, 0x83);
    assert_eq!(f.payload.len(), 19);
    assert_eq!(&f.payload[..9], &[0x8D, 0, 0x12, 1, 2, 0x36, 0x89, 0xCA, 0xC0]);
    assert_eq!(&f.payload[9..15], &[9, 0, 1, 17, 0xff, 0xff]);
    let s = n.send_stats(PlaneStats { rx: 1, filtered: 2, deduped: 3, served: 4, relayed: 5 });
    assert_eq!(&s.payload[..8], &[0, 0, 0, 1, 0, 0, 0, 2]);
}

#[test]
fn airtime_of_a_lora_frame() {
    let p = Params { freq_hz: 915_000_000, sf: 7, bw_hz: 125_000, cr: 1, pwr: 17 };
    let ms = airtime_ms(&p, 20, 8);
    assert!(ms >= 56 && ms <= 58, "{ms}");
}

#[test]
fn arming_puts_the_settings_back() {
    let p = Node::new().p;
    let modulation = RadioStep::Modulation { sf: 9, bw_hz: 125_000, cr: 1, hz: 915_000_000 };
    assert!(arm_rx(Mode::Detect, &p, 8, Some((0xC3, 0x0A)), Some(0x20), true) == vec![
        RadioStep::Standby,
        modulation,
        RadioStep::Detector { opt: 0xC3, thresh: 0x0A },
        RadioStep::Packet { preamble: 8, len: 255 },
        RadioStep::Channel { hz: 915_000_000 },
        RadioStep::Interrupts { task: Task::Receive },
        RadioStep::UnmaskHop,
        RadioStep::Receive,
        RadioStep::Gain { reg: 0x20 },
    ]);
    assert!(stage_tx(Mode::Standby, &p, 8, 20, false) == vec![
        modulation,
        RadioStep::Power { dbm: 17 },
        RadioStep::Packet { preamble: 8, len: 20 },
        RadioStep::Channel { hz: 915_000_000 },
        RadioStep::Payload,
        RadioStep::Interrupts { task: Task::Transmit },
    ]);
    assert!(start_cad(Mode::Standby, &p, None, Some(0x23)) == vec![
        modulation,
        RadioStep::Channel { hz: 915_000_000 },
        RadioStep::Interrupts { task: Task::Detect },
        RadioStep::Detect,
    ]);
}

#[test]
fn hopping_off_goes_back_to_the_first_carrier() {
    let mut n = Node::new();
    let first = vec![903_000_000u32, 904_000_000];
    let second = vec![905_000_000u32];
    assert!(n.on_hop_set(true, 5, &first, true, true).is_none());
    assert_eq!((n.p.freq_hz, n.hop.base_hz), (903_000_000, 915_000_000));
    assert!(n.on_hop_set(true, 9, &second, true, false).is_none());
    assert_eq!((n.p.freq_hz, n.hop.base_hz, n.radio_errors), (903_000_000, 915_000_000, 1));
    assert!(n.on_hop_set(true, 9, &second, true, true).is_none());
    assert!(n.on_hop_set(false, 0, &vec![], true, true).is_none());
    assert_eq!((n.p.freq_hz, n.hop.base_hz, n.hop.enabled), (915_000_000, 0, false));
    assert!(n.on_hop_set(true, 9, &second, false, true).is_some());
    assert_eq!((n.p.freq_hz, n.hop.base_hz, n.hop.enabled), (915_000_000, 0, false));
}

#[test]
fn a_failed_hop_service_ends_hopping() {
    let mut n = Node::new();
    assert_eq!((n.hop.trace.len(), n.hop.hops, n.hop.pll_timeouts, n.hop.period, n.hop.last_idx), (0, 0, 0, 0, 0));
    assert!(n.on_hop_set(true, 5, &vec![903_000_000], true, true).is_none());
    assert!(n.on_hop_service(true).is_none());
    assert!(n.hop.enabled && n.radio_errors == 0);
    let (op, log) = n.on_hop_service(false).unwrap();
    assert_eq!((op.addr(), op.resolve(0)), (0x24, 0));
    assert_eq!((log.typ, log.payload), (0x84, b"hop service failed; hopping disabled".to_vec()));
    assert!(!n.hop.enabled && n.radio_errors == 1 && n.hop.base_hz == 915_000_000);
}

#[test]
fn commands_are_taken_at_any_time() {
    let mut n = Node::new();
    let late = u64::MAX;
    let on = [1, 0, 8, 1, 0x36, 0x99, 0x0D, 0x00];
    for buf in [&on[..], &on[..], &[0, 0, 0, 0][..]] {
        match n.handle_cmd(0x1E, buf, late) {
            Plan::SetHop { on, period, list } => assert!(n.on_hop_set(on, period, &list, true, true).is_none()),
            _ => panic!("hop"),
        }
    }
    assert_eq!((n.p.freq_hz, n.hop.base_hz, n.hop.enabled, n.hop.period), (915_000_000, 0, false, 0));
    assert!(matches!(n.handle_cmd(0x1F, &[0xff, 0xff, 0xff, 0xff, 0xff, 0xff, 0xff, 0xff, 7], late), Plan::Scheduled));
    assert_eq!(n.sched.wake_at(), Some(u64::MAX - 1_505));
}

#[test]
fn a_failed_hop_command_goes_back_to_the_first_carrier() {
    let mut n = Node::new();
    assert!(n.on_hop_set(true, 5, &vec![903_000_000], true, true).is_none());
    assert_eq!((n.p.freq_hz, n.hop.base_hz), (903_000_000, 915_000_000));
    let list = vec![905_000_000u32];
    assert_eq!(n.hop_trial(true, &list, false).freq_hz, 915_000_000);
    assert!(n.on_hop_set(true, 9, &list, false, true).is_some());
    assert_eq!((n.p.freq_hz, n.hop.base_hz, n.hop.enabled), (915_000_000, 0, false));
}

#[test]
fn the_detector_register_keeps_its_reserved_bits() {
    let ops = SharedSpi::set_detector(0x03, 0x0A);
    assert_eq!(ops[0].resolve(0xC5), 0x43);
    assert_eq!(ops[0].resolve(0x7F), 0x7B);
    assert_eq!(ops[1].resolve(0xFF), 0x0A);
}
