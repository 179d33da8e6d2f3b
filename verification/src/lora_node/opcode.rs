//! Opcodes of the LoRa node's host link, and which of them this node implements.

use vstd::prelude::*;

verus! {

pub const CMD_TX: u8 = 0x01;
pub const CMD_SET_FREQ: u8 = 0x02;
pub const CMD_SET_MOD: u8 = 0x03;
pub const CMD_SET_PWR: u8 = 0x04;
pub const CMD_SET_SYNC: u8 = 0x05;
pub const CMD_GET_INFO: u8 = 0x06;
pub const CMD_SET_BEACON: u8 = 0x07;
pub const CMD_CAD: u8 = 0x08;
pub const CMD_GET_RSSI: u8 = 0x09;
pub const CMD_SET_CAD_CFG: u8 = 0x0A;
pub const CMD_SET_LBT_CFG: u8 = 0x0B;
pub const CMD_SET_PREAMBLE: u8 = 0x0C;
pub const CMD_SF_SCAN: u8 = 0x0D;
pub const CMD_TX_LBT: u8 = 0x0E;
pub const CMD_SET_NAME_FILTER: u8 = 0x0F;
pub const CMD_SET_RELAY: u8 = 0x10;
pub const CMD_DATAPLANE: u8 = 0x11;
pub const CMD_SET_SENSE_CFG: u8 = 0x12;
pub const CMD_GET_STATS: u8 = 0x13;
pub const CMD_RESET_STATS: u8 = 0x14;
pub const CMD_SET_DEBUG: u8 = 0x15;
pub const CMD_ENTER_BOOTLOADER: u8 = 0x16;
pub const CMD_READ_CLOCK: u8 = 0x17;
pub const CMD_TX_AT: u8 = 0x18;
pub const CMD_GET_CAP: u8 = 0x1A;
pub const CMD_SENSE: u8 = 0x1B;
pub const CMD_SET_RX_GAIN: u8 = 0x1C;
pub const CMD_SET_PHY: u8 = 0x1D;
pub const CMD_SET_HOP: u8 = 0x1E;
pub const CMD_TX_AT_ABS: u8 = 0x1F;
pub const CMD_GET_HOPTRACE: u8 = 0x20;

pub const EVT_RX: u8 = 0x81;
pub const EVT_TXDONE: u8 = 0x82;
pub const EVT_INFO: u8 = 0x83;
pub const EVT_LOG: u8 = 0x84;
pub const EVT_CAD: u8 = 0x85;
pub const EVT_RSSI: u8 = 0x86;
pub const EVT_SF_DETECTED: u8 = 0x87;
pub const EVT_TX_STARTED: u8 = 0x88;
pub const EVT_STATS: u8 = 0x89;
pub const EVT_CLOCK: u8 = 0x8A;
pub const EVT_CAP: u8 = 0x8B;
pub const EVT_SENSE: u8 = 0x8C;
pub const EVT_PHY_ERR: u8 = 0x8D;
pub const EVT_HOPTRACE: u8 = 0x8E;
pub const EVT_UNSUPPORTED: u8 = 0x8F;

pub const UNSUP_UNKNOWN_OPCODE: u8 = 0x01;
pub const UNSUP_NO_HARDWARE: u8 = 0x02;
pub const UNSUP_BAD_LENGTH: u8 = 0x03;
pub const UNSUP_OUT_OF_RANGE: u8 = 0x04;

/// Implemented opcodes below 32, one bit each.
pub const CMD_BITMAP: u32 = 0xFDBF_FFFE;
/// Implemented opcodes from 32 on, one bit each.
pub const CMD_BITMAP_EXT: u32 = 0x0000_0001;

/// The opcodes this node implements: all from 0x01 to 0x20, but for the unassigned 0x19 and the
/// bootloader entry that this board does not have.
pub open spec fn implemented(op: u8) -> bool {
    1 <= op <= 0x20 && op != 0x19 && op != 0x16
}

/// The bitmap bit of an opcode below 32.
pub fn cmd_bit(op: u8) -> (bit: u32)
    requires
        op < 32,
    ensures
        bit == 1u32 << op,
{
    1u32 << op
}

proof fn lemma_bitmap(op: u8)
    by (bit_vector)
    requires
        op < 32,
    ensures
        ((0xFDBF_FFFEu32 >> op) & 1 != 0) <==> (1 <= op && op != 0x19 && op != 0x16),
        ((0x0000_0001u32 >> op) & 1 != 0) <==> op == 0,
{
}

/// Looks an opcode up in the bitmaps.
pub fn is_implemented(op: u8) -> (known: bool)
    ensures
        known == implemented(op),
{
    if op < 32 {
        proof {
            lemma_bitmap(op);
        }
        (CMD_BITMAP >> op) & 1 != 0
    } else if op < 64 {
        proof {
            lemma_bitmap((op - 32) as u8);
        }
        (CMD_BITMAP_EXT >> (op - 32)) & 1 != 0
    } else {
        false
    }
}

/// The shortest payload an implemented opcode takes.
pub open spec fn min_len(op: u8) -> int {
    if op == CMD_SET_FREQ {
        4
    } else if op == CMD_SET_MOD {
        3
    } else if op == CMD_SET_PWR {
        1
    } else if op == CMD_SET_SYNC {
        1
    } else if op == CMD_SET_PREAMBLE {
        2
    } else if op == CMD_SET_BEACON {
        1
    } else if op == CMD_SET_CAD_CFG {
        3
    } else if op == CMD_SET_LBT_CFG {
        4
    } else if op == CMD_SET_RX_GAIN {
        1
    } else if op == CMD_SET_SENSE_CFG {
        3
    } else if op == CMD_DATAPLANE {
        5
    } else if op == CMD_SET_DEBUG {
        1
    } else if op == CMD_TX_AT {
        5
    } else if op == CMD_SET_PHY {
        1
    } else if op == CMD_SET_HOP {
        4
    } else if op == CMD_TX_AT_ABS {
        9
    } else {
        0
    }
}

/// The type of the event that answers a command which is not refused.
pub open spec fn answer_type(op: u8) -> u8 {
    if op == CMD_TX || op == CMD_TX_LBT || op == CMD_TX_AT || op == CMD_TX_AT_ABS {
        EVT_TXDONE
    } else if op == CMD_CAD {
        EVT_CAD
    } else if op == CMD_GET_RSSI {
        EVT_RSSI
    } else if op == CMD_SF_SCAN {
        EVT_SF_DETECTED
    } else if op == CMD_GET_STATS {
        EVT_STATS
    } else if op == CMD_READ_CLOCK {
        EVT_CLOCK
    } else if op == CMD_GET_CAP || op == CMD_SET_PHY {
        EVT_CAP
    } else if op == CMD_SENSE {
        EVT_SENSE
    } else if op == CMD_GET_HOPTRACE {
        EVT_HOPTRACE
    } else {
        EVT_INFO
    }
}

/// Why a command that no handler takes is refused.
pub fn refusal_reason(op: u8) -> (reason: u8)
    ensures
        reason == (if implemented(op) {
            UNSUP_BAD_LENGTH
        } else {
            UNSUP_UNKNOWN_OPCODE
        }),
{
    if is_implemented(op) {
        UNSUP_BAD_LENGTH
    } else {
        UNSUP_UNKNOWN_OPCODE
    }
}

} // verus!
