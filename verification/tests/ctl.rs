//! Control frames from command lines.

use ndn_radio::ndr_ctl::{command, frame, parse_mask, parse_number};

fn chars(s: &str) -> Vec<char> {
    s.chars().collect()
}

fn line(words: &[&str]) -> Option<(u8, Vec<u8>)> {
    let args: Vec<Vec<char>> = words[1..].iter().map(|w| chars(w)).collect();
    command(&chars(words[0]), &args).map(|c| (c.op, c.payload))
}

#[test]
fn control_frame_layout() {
    let f = frame(0x07, &[2, 8, 0]);
    assert_eq!(f.len(), 64);
    assert_eq!(&f[..8], &[0, 0, 8, 0, 0, 0, 0, 0]);
    assert_eq!(&f[8..12], &[8, 0, 0, 0]);
    assert_eq!(&f[12..18], &[0x03, 0x4e, 0x44, 0x52, 0x43, 0x54]);
    assert_eq!(&f[18..24], &[0x03, 0x66, 0x77, 0x88, 0x99, 0xaa]);
    assert_eq!(&f[24..30], &[0x03, 0xbb, 0xcc, 0xdd, 0xee, 0xff]);
    assert_eq!(&f[32..36], b"NDRC");
    assert_eq!(&f[36..41], &[0x07, 3, 2, 8, 0]);
    assert!(f[41..].iter().all(|b| *b == 0));
    assert_eq!(frame(1, &[9u8; 40]).len(), 78);
}

#[test]
fn command_lines_become_operations() {
    assert_eq!(line(&["enable"]), Some((0x01, vec![1])));
    assert_eq!(line(&["enable", "0"]), Some((0x01, vec![0])));
    assert_eq!(line(&["enable", "300"]), Some((0x01, vec![1])));
    assert_eq!(line(&["drop-foreign", "+7"]), Some((0x02, vec![7])));
    assert_eq!(line(&["key", "258"]), Some((0x03, vec![0, 0, 0, 0, 0, 0, 1, 2])));
    assert_eq!(line(&["key", "x"]), Some((0x03, vec![0; 8])));
    assert_eq!(line(&["nmasks", "2"]), Some((0x04, vec![2])));
    assert_eq!(line(&["mask", "1", "0x0f,ff, 10 ,zz,0x0xA"]), Some((0x05, vec![1, 0x0f, 0xff, 0x10, 0x0a])));
    assert_eq!(line(&["mask"]), Some((0x05, vec![0])));
    assert_eq!(line(&["clear-stats"]), Some((0x06, vec![])));
    assert_eq!(line(&["lease"]), Some((0x07, vec![2, 8, 0])));
    assert_eq!(line(&["lease", "3", "4", "1"]), Some((0x07, vec![3, 4, 1])));
    assert_eq!(line(&["quiet-off"]), Some((0x08, vec![])));
    assert_eq!(line(&["quiet"]), None);
}

#[test]
fn numbers_are_read_as_text_says() {
    for s in ["0", "255", "256", "+1", "+", "", "-1", "007", "1x", "18446744073709551615", "18446744073709551616"] {
        assert_eq!(parse_number(&chars(s), 10, u64::MAX), s.parse::<u64>().ok(), "{s}");
        assert_eq!(parse_number(&chars(s), 10, 255).map(|v| v as u8), s.parse::<u8>().ok(), "{s}");
        assert_eq!(parse_number(&chars(s), 16, 255).map(|v| v as u8), u8::from_str_radix(s, 16).ok(), "{s}");
    }
    let mask = "0x1,2\u{a0},\u{3000}3\t,,0xfF,100";
    let std: Vec<u8> = mask
        .split(',')
        .filter_map(|b| u8::from_str_radix(b.trim().trim_start_matches("0x"), 16).ok())
        .collect();
    assert_eq!(parse_mask(&chars(mask)), std);
}

#[test]
fn two_commands_never_share_a_frame() {
    assert_ne!(frame(1, &[0]), frame(1, &[]));
    assert_ne!(frame(1, &[0]), frame(1, &[0, 0]));
    assert_ne!(frame(1, &[5]), frame(2, &[5]));
}
