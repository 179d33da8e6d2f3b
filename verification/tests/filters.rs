//! Name filters on concrete names.

use ndn_radio::gcs::{BitR, BitW, GcsFilter};
use ndn_radio::lab::filter_test::{count_false_neg, count_false_pos, ppm, sweep, trial};
use ndn_radio::lab::names::{make_disjoint_name, make_name, make_trial_name};
use ndn_radio::lab::shadow::{
    gcs_frame, gcs_verdict, mask_verdict, parse_gcs, parse_tier0, tier0_frame, truth, Score, KEY,
};
use ndn_radio::tier0::{
    clamp_prefix, contains, for_each_prefix, name_filter, name_hash, popcount, set_bits, siphash24,
    PrefixFilter,
};

fn prefix(s: &str) -> Vec<u8> {
    s.as_bytes().to_vec()
}

#[test]
fn siphash_reference_vector() {
    let mut key = [0u8; 16];
    for i in 0..16 {
        key[i] = i as u8;
    }
    let data: Vec<u8> = (0u8..15).collect();
    assert_eq!(siphash24(&key, &data), 0xa129_ca61_49be_45e5);
    assert_eq!(name_hash(&key, &data), 0xa129_ca61_49be_45e5);
}

#[test]
fn prefixes_of_a_name_start_at_the_root() {
    let all = for_each_prefix(b"/a/bc/d");
    assert_eq!(all, vec![prefix("/"), prefix("/a"), prefix("/a/bc"), prefix("/a/bc/d")]);
    assert_eq!(for_each_prefix(b""), vec![prefix("/")]);
    let deep = for_each_prefix(b"/1/2/3/4/5/6/7/8/9");
    assert_eq!(deep.len(), 8);
    assert_eq!(deep[7], prefix("/1/2/3/4/5/6/7"));
    assert_eq!(clamp_prefix(b"/1/2/3/4/5/6/7/8/9"), 14);
    assert_eq!(clamp_prefix(b"/1/2"), 4);
}

#[test]
fn marked_prefixes_are_found() {
    let mut bits = [0u8; 16];
    assert_eq!(popcount(&bits), 0);
    set_bits(&mut bits, &KEY, b"/0003", 4);
    assert_eq!(bits, [0x00, 0x40, 0, 0, 0x08, 0, 0, 0x01, 0, 0, 0, 0, 0, 0, 0x80, 0]);
    assert!(contains(&bits, &KEY, b"/0003", 4));
    assert!(popcount(&bits) >= 1 && popcount(&bits) <= 4);
    // The two lowest positions are never used.
    assert_eq!(bits[0] & 3, 0);
    assert!(!contains(&[0u8; 16], &KEY, b"/0003", 4));
}

#[test]
fn a_name_filter_holds_every_ancestor() {
    let bits = name_filter(&KEY, b"/0003/000a/0011", 4);
    assert_eq!(
        bits,
        [0x90, 0x40, 0x02, 0x00, 0x08, 0x41, 0x00, 0x03, 0x02, 0x0a, 0x00, 0x00, 0x10, 0x00, 0x84, 0x04]
    );
    assert_eq!(popcount(&bits), 16);
    for p in for_each_prefix(b"/0003/000a/0011") {
        assert!(contains(&bits, &KEY, &p, 4));
    }
    let mut mask = [0u8; 16];
    set_bits(&mut mask, &KEY, b"/0003/000a", 4);
    assert!(PrefixFilter(bits).may_match(&PrefixFilter(mask)));
    assert!(!PrefixFilter([0u8; 16]).may_match(&PrefixFilter(mask)));
}

#[test]
fn body_filter_accepts_ancestors_after_the_wire() {
    let name = b"/0003/000a/0011";
    let f = GcsFilter::from_name(&KEY, name);
    let mut wire = [0u8; 25];
    let n = f.to_wire(&mut wire);
    assert_eq!(n, f.wire_len());
    assert_eq!(wire[0], 4);
    assert_eq!(&wire[..n], &[0x04, 0x47, 0x18, 0xb3, 0x78, 0x8c]);
    let g = GcsFilter::from_wire(&wire[..n]);
    for p in for_each_prefix(name) {
        assert!(f.may_match(&KEY, &p));
        assert!(g.may_match(&KEY, &p));
    }
    // Padding never turns a rejection into an acceptance.
    for i in 0..400u32 {
        let other = format!("/f{:03x}/{:04x}", i, i * 7);
        assert_eq!(f.may_match(&KEY, other.as_bytes()), g.may_match(&KEY, other.as_bytes()));
    }
    assert!(!GcsFilter::from_wire(&[]).may_match(&KEY, b"/0003"));
}

#[test]
fn generated_names_are_hex_components() {
    let mut buf = [0u8; 64];
    let n = make_name(&mut buf, 3, 0x1234);
    // 0x1234 = 4660, 4660 % 5 = 0: two components.
    assert_eq!(&buf[..n], b"/0003/123b");
    let n = make_name(&mut buf, 10, 4);
    assert_eq!(n, 30);
    assert_eq!(&buf[..n], b"/000a/000b/0012/0019/0020/0027");
    let n = make_trial_name(&mut buf, 3, 0xABCD);
    assert_eq!(&buf[..n], b"/0000/0001/abcd");
    let n = make_disjoint_name(&mut buf, 2, 0x1ABCD);
    assert_eq!(&buf[..n], b"/f000/fbcd");
}

#[test]
fn trials_have_no_false_negatives() {
    for depth in [2usize, 4, 6, 8] {
        let t = trial(&KEY, 4, depth, 0xABCD, 0, 500);
        assert_eq!(t.false_neg, 0);
        assert!(t.bits > 0 && t.bits <= 126);
        assert!(t.false_pos < 500);
    }
    let shallow = trial(&KEY, 4, 2, 0xABCD, 0, 500);
    assert_eq!((shallow.bits, shallow.false_pos), (11, 0));
    let deep = trial(&KEY, 4, 8, 0xABCD, 0, 500);
    assert_eq!((deep.bits, deep.false_pos), (31, 1));
    let s = sweep(&KEY, 3);
    assert_eq!((s.bits, s.false_pos), (282, 134));
    assert_eq!(s.false_neg, 0);
    assert_eq!(s.trials, 19_992);
    assert_eq!(ppm(1, 4), 250_000);
    let bits = name_filter(&KEY, b"/0000/abcd", 4);
    assert_eq!(count_false_neg(&bits, &KEY, b"/0000/abcd", 4), 0);
    // An empty filter rejects the root and both components; another name's filter holds the root.
    assert_eq!(count_false_neg(&[0u8; 16], &KEY, b"/0000/abcd", 4), 3);
    assert_eq!(count_false_neg(&bits, &KEY, b"/0003/123b", 4), 2);
    assert_eq!(count_false_neg(&[0u8; 16], &KEY, b"/0000/abcd", 0), 0);
    assert_eq!(count_false_pos(&[0u8; 16], &KEY, 4, 8, 0, 100), 0);
    assert_eq!(count_false_pos(&[0xffu8; 16], &KEY, 4, 8, 0, 100), 100);
}

#[test]
fn shadow_frames_carry_filter_and_name() {
    let registered = vec![prefix("/0003"), prefix("/000a")];
    let air = gcs_frame(&KEY, b"/0003/123b").unwrap();
    let got = parse_gcs(&air).unwrap();
    assert_eq!(got.name, b"/0003/123b");
    assert!(gcs_verdict(&got.filter, &KEY, &registered));
    assert!(truth(&got.name, &registered));
    assert!(!truth(b"/0004/123b", &registered));
    assert!(gcs_frame(&KEY, &[0x2f; 47]).is_none());
    assert!(parse_gcs(&[1, 2]).is_none());
}

#[test]
fn fixed_shadow_frames() {
    let air = tier0_frame(&KEY, b"/0003/123b");
    assert_eq!(air.len(), 48);
    let mut plain = [7u8; 20];
    plain[12] = 6;
    let got = parse_tier0(&plain).unwrap();
    assert_eq!(got.filter, vec![7u8; 12]);
    assert_eq!(got.name, vec![7u8; 6]);
    plain[12] = 9;
    assert!(parse_tier0(&plain).is_none());
    assert!(mask_verdict(&[0x0f, 0xf0], &[vec![0x03, 0x10]]));
    assert!(!mask_verdict(&[0x0f, 0xf0], &[vec![0x10, 0x10]]));
}

#[test]
fn gaps_on_the_wire_read_back_in_order() {
    let name = b"/alpha/beta/gamma/delta";
    let f = GcsFilter::from_name(&KEY, name);
    let mut wire = [0u8; 25];
    let n = f.to_wire(&mut wire);
    let prefixes = for_each_prefix(name);
    let m = prefixes.len() as u64 * 256;
    let mut values: Vec<u64> = prefixes.iter().map(|p| name_hash(&KEY, p) % m).collect();
    values.sort();
    values.dedup();
    let bit = |i: usize| (wire[1 + i / 8] >> (7 - i % 8)) & 1;
    let (mut at, mut sum) = (0, 0u64);
    for v in values {
        let mut gap = 0u64;
        while bit(at) == 1 {
            gap += 256;
            at += 1;
        }
        at += 1;
        for k in 0..8 {
            gap += (bit(at + k) as u64) << (7 - k);
        }
        at += 8;
        sum += gap;
        assert_eq!(sum, v);
    }
    assert_eq!(n, 1 + (at + 7) / 8);
    assert_eq!(f.wire_len(), n);
}

#[test]
fn a_reader_gives_back_what_was_written() {
    for (p, gaps) in [
        (8u32, vec![0u64, 5, 255, 256, 1_000]),
        (0, vec![0, 3, 7]),
        (3, vec![1, 9, 70, 2]),
        (63, vec![u64::MAX, 1]),
    ] {
        let mut w: BitW<24> = BitW::new([0u8; 24]);
        for &g in &gaps {
            w.rice(g, p);
        }
        let mut r: BitR<24> = w.reader();
        for &g in &gaps {
            assert_eq!(r.rice(p), Some(g));
        }
        assert_eq!(r.rice(p), None);
    }
}

#[test]
fn writing_past_the_body_is_harmless() {
    let mut w: BitW<2> = BitW::new([0u8; 2]);
    w.rice(0x1FF, 8);
    let mut r = w.reader();
    assert_eq!(r.rice(8), Some(0x1FF));
    assert_eq!(r.rice(8), None);
    // Ten bits stand there; of these 129 only six fit.
    w.rice(255, 1);
    w.rice(0, 8);
}

#[test]
fn a_filter_takes_three_to_thirteen_bytes() {
    let mut deep = Vec::new();
    for i in 0..20u8 {
        deep.extend_from_slice(&[b'/', b'a' + i]);
        let n = GcsFilter::from_name(&KEY, &deep).wire_len();
        assert!(n >= 3 && n <= 13, "{n}");
    }
    assert_eq!(GcsFilter::from_name(&KEY, b"").wire_len(), 3);
}

#[test]
fn a_tally_runs_freely() {
    let mut s = Score::new();
    s.seen = u32::MAX;
    s.rejected = u32::MAX;
    s.add_verdict(true, false);
    assert_eq!((s.seen, s.rejected, s.accepted, s.false_pos), (0, u32::MAX, 1, 1));
    s.add_verdict(false, false);
    assert_eq!((s.seen, s.rejected), (1, 0));
    assert_eq!(s.irrelevant(), 1);
}

#[test]
fn shadow_scores_add_up() {
    let mut s = Score::new();
    s.add_verdict(false, false);
    s.add_verdict(true, true);
    s.add_verdict(true, false);
    s.add_verdict(false, true);
    s.bad_crc();
    assert_eq!((s.seen, s.rejected, s.accepted), (4, 2, 2));
    assert_eq!((s.true_acc, s.false_pos, s.false_neg, s.crc_bad), (1, 1, 1, 1));
    assert_eq!(s.reject_ppm(), 500_000);
    assert_eq!(s.fp_ppm(), 500_000);
    assert_eq!(s.irrelevant(), 3);
    assert_eq!(s.fp_of_irrelevant_ppm(), 333_333);
}
