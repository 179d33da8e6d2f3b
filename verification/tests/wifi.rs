//! The Wi-Fi nodes' decisions on concrete events.

use ndn_radio::tier0::{name_filter, set_bits, PrefixFilter};
use ndn_radio::wifi::advq::AdvQueue;
use ndn_radio::wifi::clock::Clock;
use ndn_radio::wifi::deframe::{Deframer, Message};
use ndn_radio::wifi::esp32c5::{accept, dispatch, report, rx_message, C5Plan, NameFilter, RxQueue};
use ndn_radio::wifi::host_read::{timed_out, HostReader};
use ndn_radio::wifi::proto::{is_named_data, send_framed, txtime};
use ndn_radio::wifi::ring::Ring;
use ndn_radio::wifi::rtl8720::{rate_code, Bridge, RtlPlan, SetupStage, SetupStep};

fn data_frame(len: usize) -> Vec<u8> {
    let mut f = vec![0u8; len];
    f[0] = 0x08;
    f[24] = 0xaa;
    f[25] = 0xaa;
    f[26] = 0x03;
    f[30] = 0x86;
    f[31] = 0x24;
    f
}

fn messages(bytes: &[u8]) -> Vec<(u8, Vec<u8>)> {
    let mut d = Deframer::new();
    d.feed(bytes).into_iter().map(|m| (m.ty, m.payload)).collect()
}

#[test]
fn messages_are_framed() {
    assert_eq!(send_framed(0x85, &[1, 2, 3]), vec![0x4E, 0x44, 0x85, 3, 0, 1, 2, 3]);
    assert_eq!(send_framed(1, &vec![0; 300])[3..5], [44, 1]);
    assert_eq!(txtime(1, 2, 3).len(), 24);
    assert!(is_named_data(&data_frame(32)) && !is_named_data(&data_frame(32)[..31]));
}

#[test]
fn streams_are_deframed_in_any_pieces() {
    let mut stream = vec![0x00, 0x4E, 0x00];
    stream.extend(send_framed(1, &[9, 9]));
    stream.extend(send_framed(2, &[]));
    let whole = messages(&stream);
    assert_eq!(whole, vec![(1, vec![9, 9]), (2, vec![])]);
    let mut d = Deframer::new();
    let mut got: Vec<(u8, Vec<u8>)> = Vec::new();
    for b in &stream {
        got.extend(d.feed(&[*b]).into_iter().map(|m: Message| (m.ty, m.payload)));
    }
    assert_eq!(got, whole);
    assert!(d.space() > 0);
}

#[test]
fn the_clock_ignores_jitter_and_counts_wraps() {
    let mut c = Clock::new();
    assert_eq!(c.now_us(100), 100);
    assert_eq!(c.now_us(90), 100);
    assert_eq!(c.now_us(0xFFFF_FFFF), 0xFFFF_FFFF);
    assert_eq!(c.now_us(5), (1u64 << 32) + 5);
}

#[test]
fn the_ring_drops_whole_messages() {
    let mut r = Ring::new();
    r.push(1, &[7; 8000]);
    r.push(2, &[8; 200]);
    assert_eq!(r.dropped(), 1);
    r.push(3, &[9; 10]);
    let a = r.drain(1024);
    assert_eq!(a.len(), 1024);
    assert_eq!(&a[..5], &[0x4E, 0x44, 1, 0x40, 0x1F]);
    let mut all = a;
    loop {
        let more = r.drain(1000);
        if more.is_empty() {
            break;
        }
        all.extend(more);
    }
    assert_eq!(all.len(), 8005 + 15);
    assert_eq!(&all[8005..8010], &[0x4E, 0x44, 3, 10, 0]);
    // Across the end of the buffer.
    r.push(4, &[5; 500]);
    assert_eq!(messages(&r.drain(1024)), vec![(4, vec![5; 500])]);
}

#[test]
fn name_filters_pass_what_was_registered() {
    let key = [7u8; 16];
    let mut f = data_frame(40);
    f[4..20].copy_from_slice(&name_filter(&key, b"/a/b/c", 4));
    let mut mask = [0u8; 16];
    set_bits(&mut mask, &key, b"/a/b", 4);
    let mut nf = NameFilter::new();
    assert!(accept(&nf, true, &f));
    assert!(!accept(&nf, false, &f));
    let mut load = vec![1, 1];
    load.extend(mask);
    assert!(matches!(dispatch(&mut nf, 0x07, &load, 0), C5Plan::FilterSet));
    assert!(nf.enabled);
    assert!(nf.passes(&PrefixFilter(mask)));
    assert!(accept(&nf, true, &f));
    f[4..20].copy_from_slice(&[0u8; 16]);
    assert!(!accept(&nf, true, &f));
    // A body too short for its count changes nothing.
    assert!(matches!(dispatch(&mut nf, 0x07, &[0, 2, 1], 0), C5Plan::FilterSet));
    assert!(nf.enabled);
    assert!(!accept(&nf, true, &data_frame(513)));
}

#[test]
fn captured_frames_are_queued() {
    let nf = NameFilter::new();
    let mut q = RxQueue::new();
    for i in 0..40 {
        q.rx_cb(&nf, true, &data_frame(32), -40, i);
    }
    let mut n = 0;
    while let Some(item) = q.pop() {
        if n == 0 {
            let m = messages(&rx_message(&item));
            assert_eq!(m[0].0, 0x82);
            assert_eq!(&m[0].1[..5], &[0xD8, 0, 0, 0, 0]);
        }
        n += 1;
    }
    assert_eq!(n, 32);
}

#[test]
fn c5_commands() {
    let mut nf = NameFilter::new();
    assert!(matches!(dispatch(&mut nf, 0x02, &[11], 0), C5Plan::Channel { ch: 11 }));
    assert!(matches!(dispatch(&mut nf, 0x03, &[0xF8], 0), C5Plan::TxPower { power: -8 }));
    assert!(matches!(dispatch(&mut nf, 0x05, &[1], 0), C5Plan::Bandwidth { ht40: true }));
    assert!(matches!(dispatch(&mut nf, 0x04, &[3], 0), C5Plan::Rate { rate: 3 }));
    assert!(matches!(dispatch(&mut nf, 0x02, &[], 0), C5Plan::Ignore));
    assert!(matches!(dispatch(&mut nf, 0x77, &[1], 0), C5Plan::Ignore));
    match dispatch(&mut nf, 0x06, &[1, 5, 6, 9], 0) {
        C5Plan::Inject { frame } => assert_eq!(frame, vec![9]),
        _ => panic!("attributes"),
    }
    // The delay is cut to the cap.
    match dispatch(&mut nf, 0x09, &[0xff, 0xff, 0xff, 0, 4], 1_000) {
        C5Plan::InjectAt { target, frame } => assert_eq!((target, frame), (101_000, vec![4])),
        _ => panic!("relative"),
    }
    assert!(matches!(dispatch(&mut nf, 0x0A, &999u64.to_le_bytes(), 1_000), C5Plan::Ignore));
    assert!(matches!(dispatch(&mut nf, 0x0A, &1_000u64.to_le_bytes(), 1_000), C5Plan::InjectAt { target: 1_000, .. }));
    assert!(matches!(dispatch(&mut nf, 0x0A, &101_000u64.to_le_bytes(), 1_000), C5Plan::InjectAt { target: 101_000, .. }));
    assert!(matches!(dispatch(&mut nf, 0x0A, &101_001u64.to_le_bytes(), 1_000), C5Plan::Ignore));
    assert!(matches!(dispatch(&mut nf, 0x0A, &1_001u64.to_le_bytes(), 1_000), C5Plan::InjectAt { target: 1_001, .. }));
    match dispatch(&mut nf, 0x0B, &[], 258) {
        C5Plan::Reply { message } => assert_eq!(messages(&message), vec![(0x85, vec![2, 1, 0, 0, 0, 0, 0, 0])]),
        _ => panic!("clock"),
    }
    assert_eq!(messages(&report(1, 2, 3))[0].0, 0x83);
}

#[test]
fn advertisements_have_their_own_bursts() {
    let mut a = AdvQueue::new();
    a.push(&[]);
    a.push(&[0; 28]);
    for i in 0..9u8 {
        a.push(&[i]);
    }
    let x = a.service(1_000, 60);
    assert!(!x.stop);
    assert_eq!(x.start, Some(vec![0]));
    let x = a.service(60_999, 60);
    assert!(!x.stop && x.start.is_none());
    let x = a.service(61_000, 60);
    assert!(x.stop);
    assert_eq!(x.start, Some(vec![1]));
    let mut n = 2;
    let mut now = 61_000;
    loop {
        now += 60_000;
        let x = a.service(now, 60);
        assert!(x.stop);
        if x.start.is_none() {
            break;
        }
        n += 1;
    }
    assert_eq!(n, 7);
}

#[test]
fn host_commands_are_read_byte_by_byte() {
    let mut r = HostReader::new();
    let mut got = Vec::new();
    let mut bytes = vec![0x4E, 0x00, 0x11];
    bytes.extend(send_framed(0x30, &[1, 2, 3]));
    bytes.extend(send_framed(0x0B, &[]));
    // Too long to be a command.
    bytes.extend([0x4E, 0x44, 1, 0x41, 0x06]);
    bytes.extend(send_framed(0x02, &[6]));
    for b in bytes {
        if let Some(m) = r.push(b) {
            got.push((m.ty, m.payload));
        }
    }
    assert_eq!(got, vec![(0x30, vec![1, 2, 3]), (0x0B, vec![]), (0x02, vec![6])]);
    for b in [0x4E, 0x44, 1, 2, 0, 7] {
        assert!(r.push(b).is_none());
    }
    assert!(r.in_body());
    r.give_up();
    assert!(!r.in_body());
    assert!(timed_out(u32::MAX, 199) && !timed_out(0, 199));
}

#[test]
fn setup_runs_in_order() {
    let mut b = Bridge::new();
    let mut stage = SetupStage::Serial;
    let mut log = Vec::new();
    let mut out = Vec::new();
    loop {
        let (next, step) = b.rust_setup(stage, true);
        match step {
            SetupStep::SerialBegin { baud } => log.push(baud),
            SetupStep::Delay { ms } => log.push(ms),
            SetupStep::SetChannel { ch } => log.push(ch as u32),
            SetupStep::Write { bytes } => out.extend(bytes),
            SetupStep::Finished => break,
            _ => {}
        }
        stage = next;
    }
    assert_eq!(log, vec![115_200, 200, 6]);
    let lines: Vec<Vec<u8>> = messages(&out).into_iter().map(|m| m.1).collect();
    assert_eq!(
        lines,
        vec![
            b"boot-rs".to_vec(),
            b"wifi_on".to_vec(),
            b"ch6".to_vec(),
            b"wifi-ready".to_vec(),
            b"ble-ready".to_vec(),
            b"ready-rs".to_vec()
        ]
    );
    assert!(b.ble_up);
}

#[test]
fn frames_off_the_air() {
    let mut b = Bridge::new();
    b.rust_promisc_cb(1_000, &data_frame(32)[..31], -40, 2);
    let mut beacon = data_frame(40);
    beacon[0] = 0x80;
    b.rust_promisc_cb(2_000, &beacon, -40, 2);
    b.rust_promisc_cb(3_000, &data_frame(33), -40, 0x83);
    assert_eq!(b.activity, 3);
    let m = messages(&b.drain(4096));
    assert_eq!(m.len(), 1);
    assert_eq!(m[0].0, 0x82);
    assert_eq!(&m[0].1[..8], &[0xD8, 0, 3, 2, 0xB8, 0x0B, 0, 0]);
    assert_eq!(m[0].1.len(), 8 + 33);
    assert_eq!((rate_code(0x0B), rate_code(0x0C), rate_code(0x80)), ((0x0B, 0), (0x0C, 1), (0, 2)));
}

#[test]
fn bluetooth_traffic_reaches_the_host() {
    let mut b = Bridge::new();
    b.rust_ble_seen();
    b.rust_ble_rx(-1, &[1, 2, 3, 4, 5, 6], &[]);
    b.rust_ble_rx(-1, &[1, 2, 3, 4, 5, 6], &[9]);
    b.rust_rxinfo_dump(&[7]);
    b.dispatch(0x0C, &[1], 0);
    b.rust_rxinfo_dump(&[7]);
    b.rust_rxinfo_dump(&[7]);
    let m = messages(&b.drain(4096));
    assert_eq!(m, vec![(0x88, vec![0xff, 1, 2, 3, 4, 5, 6, 9]), (0x87, vec![7])]);
    assert_eq!(b.ble_seen, 1);
}

#[test]
fn turns_of_the_loop() {
    let mut b = Bridge::new();
    b.ble_up = true;
    b.activity = 3;
    b.ble_seen = 4;
    b.dispatch(0x30, &[5, 5], 0);
    let t = b.rust_loop(199_999);
    assert!(!t.check_scan);
    assert_eq!(t.adv.start, Some(vec![5, 5]));
    assert!(b.drain(100).is_empty());
    let t = b.rust_loop(1_000_000);
    assert!(t.check_scan && t.adv.stop);
    assert!(b.scan_checked(false) && !b.scan_checked(true));
    let m = messages(&b.drain(4096));
    assert_eq!(m[0], (0x86, vec![3, 0, 0, 0, 4, 0, 0, 0]));
    assert_eq!(m[1], (0x84, b"ble scan restarted".to_vec()));
    b.short_command();
    b.hci_done(true);
    b.hci_done(false);
    b.features_read(&[1; 8]);
    b.power_read(9, &[2; 20]);
    let m = messages(&b.drain(4096));
    assert_eq!(m[0].1, b"short cmd");
    assert_eq!(m[1].1, b"hci ok");
    assert_eq!(m[2].1, b"hci err");
    assert_eq!(m[3], (0x8A, vec![1; 8]));
    assert_eq!((m[4].0, m[4].1[0], m[4].1.len()), (0x89, 9, 21));
}

#[test]
fn rtl_commands() {
    let mut b = Bridge::new();
    match b.dispatch(0x06, &[1, 5, 6], 0) {
        RtlPlan::InjectAttr { frame, pairs } => assert_eq!((frame, pairs), (vec![], vec![5, 6])),
        _ => panic!("attributes"),
    }
    assert!(matches!(b.dispatch(0x06, &[2, 5, 6], 0), RtlPlan::Nothing));
    assert!(matches!(b.dispatch(0x32, &[0, 0, 1, 0, 2, 0], 0), RtlPlan::AdvInterval { lo: 1, hi: 2 }));
    assert_eq!(b.burst_ms, 60);
    assert!(matches!(b.dispatch(0x32, &[80, 0], 0), RtlPlan::Nothing));
    assert_eq!(b.burst_ms, 80);
    assert!(matches!(b.dispatch(0x31, &[1, 0, 2, 0], 0), RtlPlan::Coex { window: 1, interval: 2 }));
    assert!(matches!(b.dispatch(0x03, &[0xFF], 0), RtlPlan::ResetPower { ch: 6 }));
    assert!(matches!(b.dispatch(0x03, &[0xFF, 9], 0), RtlPlan::ResetPower { ch: 9 }));
    assert!(matches!(b.dispatch(0x03, &[30], 0), RtlPlan::SetPower { idx: 30 }));
    assert!(matches!(b.dispatch(0x36, &[0], 0), RtlPlan::ScanFilter { on: false }));
    match b.dispatch(0x34, &[0x03, 0x0C, 1], 0) {
        RtlPlan::Hci { opcode, params } => assert_eq!((opcode, params), (0x0C03, vec![1])),
        _ => panic!("controller"),
    }
    assert!(matches!(b.dispatch(0x7F, &[], 0), RtlPlan::Nothing));
    b.dispatch(0x0B, &[], 258);
    assert_eq!(messages(&b.drain(100)), vec![(0x85, vec![2, 1, 0, 0, 0, 0, 0, 0])]);
}

#[test]
fn rtl_schedules_are_bounded() {
    let mut b = Bridge::new();
    match b.dispatch(0x09, &[0x40, 0x0D, 0x03, 0x00, 1], 1_000) {
        RtlPlan::InjectAt { target, frame } => {
            assert_eq!((target, frame), (201_000, vec![1]));
            assert!(!b.begin_inject(1_000, target));
            assert!(b.begin_inject(101_000, target));
        }
        _ => panic!("relative"),
    }
    assert!(matches!(b.dispatch(0x0A, &201_001u64.to_le_bytes(), 101_000), RtlPlan::Nothing));
    assert!(matches!(b.dispatch(0x0A, &100_999u64.to_le_bytes(), 101_000), RtlPlan::Nothing));
    assert!(matches!(b.dispatch(0x0A, &101_000u64.to_le_bytes(), 101_000), RtlPlan::InjectAt { target: 101_000, .. }));
    b.injected(5, 6);
    let m = messages(&b.drain(100));
    assert_eq!(m[0].0, 0x83);
    assert_eq!(&m[0].1[..9], &[5, 0, 0, 0, 0, 0, 0, 0, 6]);
}
