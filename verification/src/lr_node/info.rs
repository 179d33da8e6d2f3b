//! What the node says about itself: chip errors, the information body, the capability body.

use lr2021::cmd::cmd_system::ErrorsRsp;
use vstd::prelude::*;

use crate::bytes::{as_byte, push_all, push_be16, push_be32};
use crate::lr_node::phy::{Phy, PhyState, Profile};
use crate::lr_node::sense::Sense;

verus! {

/// Version of the host protocol.
pub const PROTO_VER: u8 = 3;
/// The part, whatever modem it runs.
pub const RADIO_KIND: u8 = 2;
/// Stamps come from hardware, on a free-running counter.
pub const STAMP_KIND: u8 = 3;
/// Opcodes that act, one bit each, in a modem that hops.
pub const CMD_BITMAP_HOP: u32 = 0xFDBF_DFDE;
/// Opcodes that act in a modem that does not hop.
pub const CMD_BITMAP: u32 = 0xBDBF_DFDE;

/// `ErrorsRsp::value` on the bytes of an error response, which are filled in through
/// `ErrorsRsp::as_mut`: the last two bytes, the first of them on top.
#[verifier::external_body]
fn error_value(rsp: &[u8; 4]) -> (word: u16)
    ensures
        word == rsp@[2] * 256 + rsp@[3],
{
    let mut e = ErrorsRsp::new();
    e.as_mut().copy_from_slice(rsp);
    e.value()
}

/// A flag of the error word. From 0: high and low frequency oscillator, synthesizer lock, low and
/// high frequency RC, synthesizer, anti-aliasing filter and image calibration, busy at a trigger, no
/// front end calibration, converter, amplifier offset, polyphase filter and self reception
/// calibration.
pub open spec fn error_flag(word: int, k: int) -> bool {
    if k == 0 {
        word % 2 == 1
    } else if k == 1 {
        word / 2 % 2 == 1
    } else if k == 2 {
        word / 4 % 2 == 1
    } else if k == 3 {
        word / 8 % 2 == 1
    } else if k == 4 {
        word / 16 % 2 == 1
    } else if k == 5 {
        word / 32 % 2 == 1
    } else if k == 6 {
        word / 64 % 2 == 1
    } else if k == 7 {
        word / 128 % 2 == 1
    } else if k == 8 {
        word / 256 % 2 == 1
    } else if k == 9 {
        word / 512 % 2 == 1
    } else if k == 10 {
        word / 1024 % 2 == 1
    } else if k == 11 {
        word / 2048 % 2 == 1
    } else if k == 12 {
        word / 4096 % 2 == 1
    } else {
        word / 8192 % 2 == 1
    }
}

/// The place value of a flag.
pub open spec fn weight(k: int) -> int {
    if k == 0 {
        1
    } else if k == 1 {
        2
    } else if k == 2 {
        4
    } else if k == 3 {
        8
    } else if k == 4 {
        16
    } else if k == 5 {
        32
    } else if k == 6 {
        64
    } else if k == 7 {
        128
    } else if k == 8 {
        256
    } else if k == 9 {
        512
    } else if k == 10 {
        1024
    } else if k == 11 {
        2048
    } else if k == 12 {
        4096
    } else {
        8192
    }
}

/// Reads the flags of an error response.
pub fn error_flags(rsp: &[u8; 4]) -> (f: [bool; 14])
    ensures
        forall|k: int| 0 <= k < 14 ==> #[trigger] f@[k] == error_flag(rsp@[2] * 256 + rsp@[3], k),
{
    let w: u16 = error_value(rsp);
    [
        w % 2 == 1,
        w / 2 % 2 == 1,
        w / 4 % 2 == 1,
        w / 8 % 2 == 1,
        w / 16 % 2 == 1,
        w / 32 % 2 == 1,
        w / 64 % 2 == 1,
        w / 128 % 2 == 1,
        w / 256 % 2 == 1,
        w / 512 % 2 == 1,
        w / 1024 % 2 == 1,
        w / 2048 % 2 == 1,
        w / 4096 % 2 == 1,
        w / 8192 % 2 == 1,
    ]
}

/// The flags as a number, the first one lowest.
pub open spec fn flag_sum(f: Seq<bool>, n: int) -> int
    decreases n,
{
    if n <= 0 {
        0
    } else {
        flag_sum(f, n - 1) + if f[n - 1] {
            weight(n - 1)
        } else {
            0
        }
    }
}

/// The flags as a word for the host, the first one lowest.
pub fn err_bits(f: &[bool; 14]) -> (w: u16)
    ensures
        w == flag_sum(f@, 14),
{
    let mut w: u16 = 0;
    let mut k: usize = 0;
    let mut place: u16 = 1;
    while k < 14
        invariant
            k <= 14,
            w == flag_sum(f@, k as int),
            w < place,
            k < 14 ==> place == weight(k as int),
            k == 14 ==> place == 16_384,
        decreases 14 - k,
    {
        if f[k] {
            w = w + place;
        }
        place = place * 2;
        k += 1;
    }
    w
}

/// The status byte: the chip's mode below, its verdict on the last command above; all ones where
/// it did not answer.
pub open spec fn status_byte(status: Option<(u8, u8)>) -> u8 {
    match status {
        Some((mode, cmd)) => mode | (cmd << 4u8),
        None => 0xFF,
    }
}

/// The error word of a response; none where the chip did not answer.
pub open spec fn error_word(errors: Option<[u8; 4]>) -> u16 {
    match errors {
        Some(rsp) => ((rsp@[2] * 256 + rsp@[3]) % 16_384) as u16,
        None => 0,
    }
}

/// The information body: status, syncword, errors, carrier, the modem's three slots, the power in
/// effect, no lost bytes, busy senses, deferrals.
pub open spec fn info_bytes(
    pr: Profile,
    st: PhyState,
    s: Sense,
    status: Option<(u8, u8)>,
    errors: Option<[u8; 4]>,
) -> Seq<u8> {
    seq![status_byte(status)] + crate::bytes::be16(PhyState::sync16(pr, st.mode.spec_phy()))
        + crate::bytes::be16(error_word(errors)) + crate::bytes::be32(st.freq_hz)
        + st.mode.triple() + seq![
        crate::bytes::twos8(
            crate::flrc_link::half_toward_zero(st.tx_power_half_db as int) as i8,
        ),
        0u8,
        0u8,
    ] + crate::bytes::be16(s.cad_busy) + crate::bytes::be16(s.defer)
}

proof fn lemma_flag_sum(f: Seq<bool>, w: int)
    requires
        f.len() == 14,
        0 <= w < 65_536,
        forall|k: int| 0 <= k < 14 ==> #[trigger] f[k] == error_flag(w, k),
    ensures
        flag_sum(f, 14) == w % 16_384,
{
    reveal_with_fuel(flag_sum, 15);
    assert(f[0] == error_flag(w, 0));
    assert(f[1] == error_flag(w, 1));
    assert(f[2] == error_flag(w, 2));
    assert(f[3] == error_flag(w, 3));
    assert(f[4] == error_flag(w, 4));
    assert(f[5] == error_flag(w, 5));
    assert(f[6] == error_flag(w, 6));
    assert(f[7] == error_flag(w, 7));
    assert(f[8] == error_flag(w, 8));
    assert(f[9] == error_flag(w, 9));
    assert(f[10] == error_flag(w, 10));
    assert(f[11] == error_flag(w, 11));
    assert(f[12] == error_flag(w, 12));
    assert(f[13] == error_flag(w, 13));
    lemma_halves(w);
}

/// Each halving splits off the lowest flag.
proof fn lemma_halves(w: int)
    requires
        0 <= w < 65_536,
    ensures
        w % 16_384 == w % 2 + 2 * (w / 2 % 2) + 4 * (w / 4 % 2) + 8 * (w / 8 % 2) + 16 * (w / 16
            % 2) + 32 * (w / 32 % 2) + 64 * (w / 64 % 2) + 128 * (w / 128 % 2) + 256 * (w / 256
            % 2) + 512 * (w / 512 % 2) + 1024 * (w / 1024 % 2) + 2048 * (w / 2048 % 2) + 4096 * (w
            / 4096 % 2) + 8192 * (w / 8192 % 2),
{
    let v = w as u16;
    assert(v % 16_384 == v % 2 + 2 * (v / 2 % 2) + 4 * (v / 4 % 2) + 8 * (v / 8 % 2) + 16 * (v / 16
        % 2) + 32 * (v / 32 % 2) + 64 * (v / 64 % 2) + 128 * (v / 128 % 2) + 256 * (v / 256 % 2)
        + 512 * (v / 512 % 2) + 1024 * (v / 1024 % 2) + 2048 * (v / 2048 % 2) + 4096 * (v / 4096
        % 2) + 8192 * (v / 8192 % 2)) by (bit_vector);
}

/// The information body.
pub fn info_body(
    pr: &Profile,
    st: &PhyState,
    s: &Sense,
    status: Option<(u8, u8)>,
    errors: Option<[u8; 4]>,
) -> (body: Vec<u8>)
    ensures
        body@ == info_bytes(*pr, *st, *s, status, errors),
        body@.len() == 19,
{
    let first: u8 = match status {
        Some((mode, cmd)) => mode | (cmd << 4u8),
        None => 0xFF,
    };
    let errs: u16 = match errors {
        Some(rsp) => {
            let f: [bool; 14] = error_flags(&rsp);
            proof {
                lemma_flag_sum(f@, rsp@[2] * 256 + rsp@[3]);
            }
            err_bits(&f)
        },
        None => 0,
    };
    let triple: [u8; 3] = st.mod_triple();
    let mut body: Vec<u8> = Vec::new();
    body.push(first);
    push_be16(&mut body, st.sync_word(pr));
    push_be16(&mut body, errs);
    push_be32(&mut body, st.freq_hz);
    push_all(&mut body, triple.as_slice());
    body.push(as_byte(st.tx_power_dbm()));
    body.push(0);
    body.push(0);
    push_be16(&mut body, s.cad_busy);
    push_be16(&mut body, s.defer);
    assert(st.mode.triple().len() == 3);
    assert(body@ =~= info_bytes(*pr, *st, *s, status, errors));
    body
}

/// A modem that hops inside a packet.
pub open spec fn hops_inside(p: Phy) -> bool {
    p != Phy::Flrc
}

/// The opcodes below 32 that act in a modem.
pub open spec fn acts(p: Phy, op: u8) -> bool {
    &&& 1 <= op <= 0x1F
    &&& op != 0x05 && op != 0x0D && op != 0x16 && op != 0x19
    &&& op == 0x1E ==> hops_inside(p)
}

/// The bitmap of the opcodes that act.
pub open spec fn bitmap(p: Phy) -> u32 {
    if hops_inside(p) {
        0xFDBF_DFDE
    } else {
        0xBDBF_DFDE
    }
}

/// The bitmap of the opcodes that act.
pub fn cmd_bitmap_for(p: Phy) -> (b: u32)
    ensures
        b == bitmap(p),
{
    match p {
        Phy::Flrc => CMD_BITMAP,
        _ => CMD_BITMAP_HOP,
    }
}

/// The bitmap has exactly the bits of the opcodes that act.
pub proof fn bitmap_is_exact(p: Phy, op: u8)
    requires
        op < 32,
    ensures
        ((bitmap(p) >> op) & 1 != 0) <==> acts(p, op),
{
    assert(((0xFDBF_DFDEu32 >> op) & 1 != 0) <==> (1 <= op && op != 0x05 && op != 0x0D && op != 0x16
        && op != 0x19)) by (bit_vector)
        requires
            op < 32,
    ;
    assert(((0xBDBF_DFDEu32 >> op) & 1 != 0) <==> (1 <= op && op != 0x05 && op != 0x0D && op != 0x16
        && op != 0x19 && op != 0x1E)) by (bit_vector)
        requires
            op < 32,
    ;
}

/// Spreading factors of a modem; none for one that has no such thing.
pub open spec fn sf_span(p: Phy) -> (u8, u8) {
    if p == Phy::Lora {
        (7, 12)
    } else {
        (0, 0)
    }
}

/// Placement granularity of a modem, in nanoseconds.
pub open spec fn gran_ns(pr: Profile, p: Phy) -> u32 {
    match p {
        Phy::Flrc => pr.flrc_gran_ns,
        Phy::Lora => pr.lora_gran_ns,
        Phy::LrFhss => pr.lrfhss_gran_ns,
    }
}

/// The capability body: protocol, part, band, power, clock, payload, opcodes, spreading factors,
/// placement granularity, modems on offer, modem in use.
pub open spec fn cap_bytes(pr: Profile, p: Phy) -> Seq<u8> {
    seq![3u8, 2u8] + crate::bytes::be32(pr.band_min_hz) + crate::bytes::be32(pr.band_max_hz) + seq![
        crate::bytes::twos8(pr.pwr_min_dbm),
        crate::bytes::twos8(pr.pwr_max_dbm),
    ] + crate::bytes::be32(16_000_000) + seq![3u8] + crate::bytes::be16(
        PhyState::payload_cap(pr, p),
    ) + crate::bytes::be32(bitmap(p)) + seq![sf_span(p).0, sf_span(p).1] + crate::bytes::be32(
        gran_ns(pr, p),
    ) + crate::bytes::be32(pr.phy_bitmap) + seq![p.spec_code()]
}

/// The capability body for the modem in use.
pub fn caps_for(pr: &Profile, st: &PhyState) -> (body: Vec<u8>)
    ensures
        body@ == cap_bytes(*pr, st.mode.spec_phy()),
        body@.len() == 34,
{
    let p: Phy = st.phy();
    let (sf_min, sf_max): (u8, u8) = match p {
        Phy::Lora => (crate::lr_node::phy::LORA_SF_MIN, crate::lr_node::phy::LORA_SF_MAX),
        _ => (0, 0),
    };
    let gran: u32 = match p {
        Phy::Flrc => pr.flrc_gran_ns,
        Phy::Lora => pr.lora_gran_ns,
        Phy::LrFhss => pr.lrfhss_gran_ns,
    };
    let mut c: Vec<u8> = Vec::new();
    c.push(PROTO_VER);
    c.push(RADIO_KIND);
    push_be32(&mut c, pr.band_min_hz);
    push_be32(&mut c, pr.band_max_hz);
    c.push(as_byte(pr.pwr_min_dbm));
    c.push(as_byte(pr.pwr_max_dbm));
    push_be32(&mut c, crate::lr_node::irq::STAMP_HZ);
    c.push(STAMP_KIND);
    push_be16(&mut c, st.max_payload(pr));
    push_be32(&mut c, cmd_bitmap_for(p));
    c.push(sf_min);
    c.push(sf_max);
    push_be32(&mut c, gran);
    push_be32(&mut c, pr.phy_bitmap);
    c.push(p.code());
    assert(c@ =~= cap_bytes(*pr, p));
    c
}

} // verus!
