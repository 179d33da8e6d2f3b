//! What the log lines say.

use vstd::prelude::*;

use crate::lora_node::node::Node;

verus! {

proof fn lemma_put(whole: Seq<u8>, more: Seq<u8>)
    ensures
        crate::lora_node::outcome::put(crate::text::cut(whole, 96), more) == crate::text::cut(
            whole + more,
            96,
        ),
{
    crate::text::lemma_cut_append(whole, more, 96);
}

proof fn lemma_put_first(more: Seq<u8>)
    ensures
        crate::lora_node::outcome::put(Seq::empty(), more) == crate::text::cut(more, 96),
        crate::text::cut(Seq::<u8>::empty() + more, 96) == crate::text::cut(more, 96),
{
    assert(Seq::<u8>::empty() + more =~= more);
}

/// The line about the chip shows the three registers as they were read, in hexadecimal, and the two
/// counts of the node, as far as a line reaches.
pub proof fn the_chip_line_shows_the_chip(n: Node, op: u8, modem: u8, sync: u8)
    ensures
        n.chip_line(op, modem, sync) == crate::text::cut(
            crate::text::text("chip op_mode=0x") + crate::text::hex(op as nat, 2)
                + crate::text::text(" modem_stat=0x") + crate::text::hex(modem as nat, 2)
                + crate::text::text(" sync=0x") + crate::text::hex(sync as nat, 2)
                + crate::text::text(" err=") + crate::text::decimal(n.radio_errors as nat)
                + crate::text::text(" trunc=") + crate::text::decimal(n.rx_trunc as nat),
            96,
        ),
{
    let a = crate::text::text("chip op_mode=0x");
    let b = a + crate::text::hex(op as nat, 2);
    let c = b + crate::text::text(" modem_stat=0x");
    let d = c + crate::text::hex(modem as nat, 2);
    let e = d + crate::text::text(" sync=0x");
    let f = e + crate::text::hex(sync as nat, 2);
    let g = f + crate::text::text(" err=");
    let h = g + crate::text::decimal(n.radio_errors as nat);
    let i = h + crate::text::text(" trunc=");
    lemma_put_first(a);
    lemma_put(a, crate::text::hex(op as nat, 2));
    lemma_put(b, crate::text::text(" modem_stat=0x"));
    lemma_put(c, crate::text::hex(modem as nat, 2));
    lemma_put(d, crate::text::text(" sync=0x"));
    lemma_put(e, crate::text::hex(sync as nat, 2));
    lemma_put(f, crate::text::text(" err="));
    lemma_put(g, crate::text::decimal(n.radio_errors as nat));
    lemma_put(h, crate::text::text(" trunc="));
    lemma_put(i, crate::text::decimal(n.rx_trunc as nat));
}

/// The line about the settings shows the detector pair and the gain that are in use, zeros where none
/// was set, and how many transmissions missed their instant.
pub proof fn the_knob_line_shows_the_settings(n: Node, opt: u8, thresh: u8, gain: u8)
    requires
        n.det == Some((opt, thresh)) || (n.det is None && opt == 0 && thresh == 0),
        n.lna == Some(gain) || (n.lna is None && gain == 0),
    ensures
        n.knob_line() == crate::text::cut(
            crate::text::text("knobs det=0x") + crate::text::hex(opt as nat, 2)
                + crate::text::text("/0x") + crate::text::hex(thresh as nat, 2)
                + crate::text::text(" lna=0x") + crate::text::hex(gain as nat, 2)
                + crate::text::text(" sched_late=") + crate::text::decimal(n.sched_late as nat)
                + crate::text::text(" gran=99us"),
            96,
        ),
{
    let a = crate::text::text("knobs det=0x");
    let b = a + crate::text::hex(opt as nat, 2);
    let c = b + crate::text::text("/0x");
    let d = c + crate::text::hex(thresh as nat, 2);
    let e = d + crate::text::text(" lna=0x");
    let f = e + crate::text::hex(gain as nat, 2);
    let g = f + crate::text::text(" sched_late=");
    let h = g + crate::text::decimal(n.sched_late as nat);
    lemma_put_first(a);
    lemma_put(a, crate::text::hex(opt as nat, 2));
    lemma_put(b, crate::text::text("/0x"));
    lemma_put(c, crate::text::hex(thresh as nat, 2));
    lemma_put(d, crate::text::text(" lna=0x"));
    lemma_put(e, crate::text::hex(gain as nat, 2));
    lemma_put(f, crate::text::text(" sched_late="));
    lemma_put(g, crate::text::decimal(n.sched_late as nat));
    lemma_put(h, crate::text::text(" gran=99us"));
}

/// The line about hopping shows whether it is on, its list's length, its period, its counts, the last
/// place it hopped to and its first carrier.
pub proof fn the_hop_line_shows_the_hopping(n: Node)
    ensures
        n.hop_line() == crate::text::cut(
            crate::text::text("hop on=") + crate::text::decimal(
                if n.hop.enabled {
                    1
                } else {
                    0
                },
            ) + crate::text::text(" n=") + crate::text::decimal(n.hop.n as nat)
                + crate::text::text(" per=") + crate::text::decimal(n.hop.period as nat)
                + crate::text::text(" hops=") + crate::text::decimal(n.hop.hops as nat)
                + crate::text::text(" pll_to=") + crate::text::decimal(n.hop.pll_timeouts as nat)
                + crate::text::text(" idx=") + crate::text::decimal(n.hop.last_idx as nat)
                + crate::text::text(" hz0=") + crate::text::decimal(n.hop.hz@[0] as nat),
            96,
        ),
{
    let on: nat = if n.hop.enabled {
        1
    } else {
        0
    };
    let a = crate::text::text("hop on=");
    let b = a + crate::text::decimal(on);
    let c = b + crate::text::text(" n=");
    let d = c + crate::text::decimal(n.hop.n as nat);
    let e = d + crate::text::text(" per=");
    let f = e + crate::text::decimal(n.hop.period as nat);
    let g = f + crate::text::text(" hops=");
    let h = g + crate::text::decimal(n.hop.hops as nat);
    let i = h + crate::text::text(" pll_to=");
    let j = i + crate::text::decimal(n.hop.pll_timeouts as nat);
    let k = j + crate::text::text(" idx=");
    let l = k + crate::text::decimal(n.hop.last_idx as nat);
    let m = l + crate::text::text(" hz0=");
    lemma_put_first(a);
    lemma_put(a, crate::text::decimal(on));
    lemma_put(b, crate::text::text(" n="));
    lemma_put(c, crate::text::decimal(n.hop.n as nat));
    lemma_put(d, crate::text::text(" per="));
    lemma_put(e, crate::text::decimal(n.hop.period as nat));
    lemma_put(f, crate::text::text(" hops="));
    lemma_put(g, crate::text::decimal(n.hop.hops as nat));
    lemma_put(h, crate::text::text(" pll_to="));
    lemma_put(i, crate::text::decimal(n.hop.pll_timeouts as nat));
    lemma_put(j, crate::text::text(" idx="));
    lemma_put(k, crate::text::decimal(n.hop.last_idx as nat));
    lemma_put(l, crate::text::text(" hz0="));
    lemma_put(m, crate::text::decimal(n.hop.hz@[0] as nat));
}

/// The line about the record of hops shows how many it holds and how many of them were made while
/// transmitting; an entry more counts exactly if it carries the flag.
pub proof fn the_trace_line_shows_the_record(
    n: Node,
    s: Seq<crate::lora_node::hop::HopEntry>,
    e: crate::lora_node::hop::HopEntry,
)
    ensures
        n.trace_line() == crate::text::cut(
            crate::text::text("hoptrace n=") + crate::text::decimal(n.hop.trace@.len())
                + crate::text::text("/32 txf=") + crate::text::decimal(
                crate::lora_node::hop::flagged(n.hop.trace@),
            ) + crate::text::text(" stamp_hz=1000000 bitmap_ext=0x00000001"),
            96,
        ),
        crate::lora_node::hop::flagged(Seq::empty()) == 0,
        e.idx >= 128 ==> crate::lora_node::hop::flagged(s.push(e)) == crate::lora_node::hop::flagged(
            s,
        ) + 1,
        e.idx < 128 ==> crate::lora_node::hop::flagged(s.push(e)) == crate::lora_node::hop::flagged(
            s,
        ),
{
    let a = crate::text::text("hoptrace n=");
    let b = a + crate::text::decimal(n.hop.trace@.len());
    let c = b + crate::text::text("/32 txf=");
    let d = c + crate::text::decimal(crate::lora_node::hop::flagged(n.hop.trace@));
    lemma_put_first(a);
    lemma_put(a, crate::text::decimal(n.hop.trace@.len()));
    lemma_put(b, crate::text::text("/32 txf="));
    lemma_put(c, crate::text::decimal(crate::lora_node::hop::flagged(n.hop.trace@)));
    lemma_put(d, crate::text::text(" stamp_hz=1000000 bitmap_ext=0x00000001"));
    assert(s.push(e).drop_last() =~= s);
    let x = e.idx;
    assert((x & 0x80 != 0) <==> x >= 128) by (bit_vector);
}

/// The line about a received frame shows its length and what becomes of it.
pub proof fn the_rx_line_shows_what_becomes_of_it(n: usize, serve: bool, relay: bool, deliver: bool)
    ensures
        crate::lora_node::node::rx_log(n, serve, relay, deliver) == crate::text::cut(
            crate::text::text("rx n=") + crate::text::decimal(n as nat) + crate::text::text(
                " serve=",
            ) + (if serve {
                crate::text::text("true")
            } else {
                crate::text::text("false")
            }) + crate::text::text(" relay=") + (if relay {
                crate::text::text("true")
            } else {
                crate::text::text("false")
            }) + crate::text::text(" deliver=") + (if deliver {
                crate::text::text("true")
            } else {
                crate::text::text("false")
            }),
            96,
        ),
{
    let a = crate::text::text("rx n=");
    let b = a + crate::text::decimal(n as nat);
    let c = b + crate::text::text(" serve=");
    let d = c + crate::lora_node::node::bool_text(serve);
    let e = d + crate::text::text(" relay=");
    let f = e + crate::lora_node::node::bool_text(relay);
    let g = f + crate::text::text(" deliver=");
    lemma_put_first(a);
    lemma_put(a, crate::text::decimal(n as nat));
    lemma_put(b, crate::text::text(" serve="));
    lemma_put(c, crate::lora_node::node::bool_text(serve));
    lemma_put(d, crate::text::text(" relay="));
    lemma_put(e, crate::lora_node::node::bool_text(relay));
    lemma_put(f, crate::text::text(" deliver="));
    lemma_put(g, crate::lora_node::node::bool_text(deliver));
}

/// The line about a scheduled transmission shows by how many microseconds it missed its instant, with
/// its sign, and how many have missed theirs; the beacon ends in its number; the build is named
/// between fixed texts; and a detector setting that was not taken as sent is shown as it was taken.
pub proof fn other_lines_show_their_numbers(
    err: int,
    late: u16,
    seq_no: u32,
    build: Seq<u8>,
    sym: u8,
    opt: u8,
    thresh: u8,
)
    ensures
        crate::lora_node::node::sched_log(err, late) == crate::text::cut(
            crate::text::text("sched err=") + crate::text::signed(err) + crate::text::text(
                "us gran=99us late=",
            ) + crate::text::decimal(late as nat),
            96,
        ),
        crate::lora_node::node::beacon_text(seq_no) == crate::text::cut(
            crate::text::text("LORA-BEACON seq=") + crate::text::decimal(seq_no as nat),
            96,
        ),
        crate::lora_node::report::build_line(build) == crate::text::cut(
            crate::text::text("heltec-lora-rs build=") + build + crate::text::text(
                " proto=3 stamp_hz=1000000",
            ),
            96,
        ),
        crate::lora_node::command::detector_log(sym, opt, thresh) == crate::text::cut(
            crate::text::text("cad_cfg sym=") + crate::text::decimal(sym as nat)
                + crate::text::text(" ignored, opt=0x") + crate::text::hex(opt as nat, 2)
                + crate::text::text(" thr=0x") + crate::text::hex(thresh as nat, 2),
            96,
        ),
{
    let a = crate::text::text("sched err=");
    let b = a + crate::text::signed(err);
    let c = b + crate::text::text("us gran=99us late=");
    lemma_put_first(a);
    lemma_put(a, crate::text::signed(err));
    lemma_put(b, crate::text::text("us gran=99us late="));
    lemma_put(c, crate::text::decimal(late as nat));
    lemma_put(crate::text::text("LORA-BEACON seq="), crate::text::decimal(seq_no as nat));
    let d = crate::text::text("heltec-lora-rs build=");
    lemma_put_first(d);
    lemma_put(d, build);
    lemma_put(d + build, crate::text::text(" proto=3 stamp_hz=1000000"));
    let e = crate::text::text("cad_cfg sym=");
    let f = e + crate::text::decimal(sym as nat);
    let g = f + crate::text::text(" ignored, opt=0x");
    let h = g + crate::text::hex(opt as nat, 2);
    let i = h + crate::text::text(" thr=0x");
    lemma_put_first(e);
    lemma_put(e, crate::text::decimal(sym as nat));
    lemma_put(f, crate::text::text(" ignored, opt=0x"));
    lemma_put(g, crate::text::hex(opt as nat, 2));
    lemma_put(h, crate::text::text(" thr=0x"));
    lemma_put(i, crate::text::hex(thresh as nat, 2));
}

/// A line goes out as a log event, byte for byte; a modem that does not answer as such is named with
/// what it said.
pub proof fn lines_go_out_as_logs(line: Seq<u8>, phy: u8, status: u8)
    ensures
        crate::lora_node::outcome::log_view(line).typ == 0x84,
        crate::lora_node::outcome::log_view(line).payload == line,
        crate::lora_node::outcome::phy_err_view(phy, status).typ == 0x8D,
        crate::lora_node::outcome::phy_err_view(phy, status).payload == seq![phy, status],
{
}

} // verus!
