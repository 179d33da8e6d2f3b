//! The serial protocol of the Wi-Fi nodes: `4E 44 type len_lo len_hi payload`.

use vstd::prelude::*;

use crate::bytes::push_all;

verus! {

/// First sync byte.
pub const SYNC0: u8 = 0x4E;
/// Second sync byte.
pub const SYNC1: u8 = 0x44;

pub const T_INJECT: u8 = 0x01;
pub const T_CHANNEL: u8 = 0x02;
pub const T_TXPOWER: u8 = 0x03;
pub const T_RATE: u8 = 0x04;
pub const T_BW40: u8 = 0x05;
pub const T_INJECT_ATTR: u8 = 0x06;
pub const T_NAMEFILTER: u8 = 0x07;
pub const T_INJECT_AT: u8 = 0x09;
pub const T_INJECT_ABS: u8 = 0x0A;
pub const T_READCLOCK: u8 = 0x0B;
pub const T_RXINFO_ARM: u8 = 0x0C;
pub const T_POWER_PCT: u8 = 0x0D;
pub const T_READPOWER: u8 = 0x0E;
pub const T_BLE_ADV: u8 = 0x30;
pub const T_COEX: u8 = 0x31;
pub const T_BLE_PACE: u8 = 0x32;
pub const T_BLE_READCAPS: u8 = 0x33;
pub const T_BLE_HCI: u8 = 0x34;
pub const T_BLE_TXPOWER: u8 = 0x35;
pub const T_BLE_FILTER: u8 = 0x36;

pub const T_RX_TS: u8 = 0x82;
pub const T_TXTIME: u8 = 0x83;
pub const T_LOG: u8 = 0x84;
pub const T_CLOCK: u8 = 0x85;
pub const T_OCC: u8 = 0x86;
pub const T_RXINFO: u8 = 0x87;
pub const T_BLE_RX: u8 = 0x88;
pub const T_POWERIDX: u8 = 0x89;
pub const T_BLE_CAPS: u8 = 0x8A;

/// The name-data ethertype.
pub const NDN_ETHERTYPE: u16 = 0x8624;
/// Furthest an injection is scheduled ahead, in microseconds.
pub const SCHED_MAX_DELAY_US: u64 = 100_000;

/// The bytes of a message. The length field holds the payload length modulo 65536.
pub open spec fn message_bytes(ty: u8, payload: Seq<u8>) -> Seq<u8> {
    seq![
        SYNC0,
        SYNC1,
        ty,
        (payload.len() % 256) as u8,
        (payload.len() / 256 % 256) as u8,
    ] + payload
}

/// Encodes one message.
pub fn send_framed(ty: u8, payload: &[u8]) -> (bytes: Vec<u8>)
    ensures
        bytes@ == message_bytes(ty, payload@),
{
    let mut bytes: Vec<u8> = Vec::new();
    bytes.push(SYNC0);
    bytes.push(SYNC1);
    bytes.push(ty);
    bytes.push((payload.len() % 256) as u8);
    bytes.push((payload.len() / 256 % 256) as u8);
    push_all(&mut bytes, payload);
    assert(bytes@ =~= message_bytes(ty, payload@));
    bytes
}

/// A data frame that carries named data: LLC/SNAP behind the three addresses, then the ethertype.
pub open spec fn carries_named_data(f: Seq<u8>) -> bool {
    &&& f.len() >= 32
    &&& f[24] == 0xaa
    &&& f[25] == 0xaa
    &&& f[26] == 0x03
    &&& f[30] == 0x86
    &&& f[31] == 0x24
}

/// Tests a captured frame for named data.
pub fn is_named_data(f: &[u8]) -> (b: bool)
    ensures
        b == carries_named_data(f@),
{
    f.len() >= 32 && f[24] == 0xaa && f[25] == 0xaa && f[26] == 0x03 && f[30] == 0x86 && f[31]
        == 0x24
}

/// The body of a scheduling report: when it should have been, when it was, and the radio's own
/// clock.
pub open spec fn txtime_body(target: u64, actual: u64, tsf: u64) -> Seq<u8> {
    crate::bytes::le64(target) + crate::bytes::le64(actual) + crate::bytes::le64(tsf)
}

/// The body of a scheduling report.
pub fn txtime(target: u64, actual: u64, tsf: u64) -> (body: Vec<u8>)
    ensures
        body@ == txtime_body(target, actual, tsf),
{
    let mut body: Vec<u8> = Vec::new();
    crate::bytes::push_le64(&mut body, target);
    crate::bytes::push_le64(&mut body, actual);
    crate::bytes::push_le64(&mut body, tsf);
    assert(body@ =~= txtime_body(target, actual, tsf));
    body
}

} // verus!
