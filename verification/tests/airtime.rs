//! Airtime arithmetic on concrete values.

use ndn_radio::airtime::{
    airtime_ms_ceil, airtime_us, lora_airtime_us, lrfhss_airtime_us, lrfhss_block_count,
    preamble_bits_of_code, preamble_code_for_bits, LRFHSS_BIT_US, LRFHSS_HEADER_BITS, SCHED_GRAN_NS,
    SCHED_MCU_NS, SCHED_RAMP_NS, SCHED_SPI_NS, SCHED_TICK_NS,
};

#[test]
fn sched_granularity_is_pinned_to_the_measurement_not_the_lead() {
    let lead = SCHED_TICK_NS + SCHED_SPI_NS + SCHED_RAMP_NS + SCHED_MCU_NS;
    assert_eq!(lead, 37_963, "the arithmetic in the SCHED_GRAN_NS doc comment");
    // MEASURED p2p 3.4 µs. The declaration must cover it with margin, and must NOT drift back up
    // to the lead — that is the regression this now guards.
    const MEASURED_P2P_NS: u32 = 3_400;
    assert!(
        SCHED_GRAN_NS >= MEASURED_P2P_NS,
        "declared granularity is under the MEASURED spread"
    );
    assert!(
        SCHED_GRAN_NS < lead,
        "granularity has drifted back to the fixed lead; the lead is compensated, not jitter"
    );
    // Pin the components so a change to any one of them shows up here rather than silently
    // rebalancing the margin.
    assert_eq!(SCHED_TICK_NS, 63); // 62.5 ns rounded UP, unlike timing::TICK_NS
    assert_eq!(SCHED_SPI_NS, 5_000);
    assert_eq!(SCHED_GRAN_NS, 10_000);
}

#[test]
fn airtime_of_the_default_frame() {
    assert_eq!(airtime_us(0, 1, 32, 32, 48, 2), 230);
    // …and the fleet's millisecond field can only round it up.
    assert_eq!(airtime_ms_ceil(230), 1);
}

#[test]
fn airtime_tracks_rung_and_coding() {
    let fast = airtime_us(0, 2, 32, 32, 48, 2); // 2.6 Mbit/s, FEC off
    let slow = airtime_us(7, 2, 32, 32, 48, 2); // 260 kbit/s, FEC off
    assert_eq!(fast, 179); // (400 + 64) bits / 2600 kbit/s
    assert_eq!(slow, 1785); // exactly 10× the rate ⇒ ~10× the time
    assert!(slow > fast * 9);

    // FEC off vs rate 1/2 at the same rung: the payload term doubles, the preamble does not.
    let half = airtime_us(0, 0, 32, 32, 48, 2);
    assert_eq!(half, 333); // (800 + 64) / 2600
    assert!(half > fast && half < fast * 2);

    // The slowest rung with the heaviest coding is the only combination that exceeds 1 ms and so
    // the only one the fleet's millisecond field can express with any resolution at all.
    assert_eq!(airtime_ms_ceil(airtime_us(7, 0, 32, 32, 48, 2)), 4);
}

#[test]
fn unknown_codes_do_not_invent_a_duration() {
    assert_eq!(airtime_us(8, 1, 32, 32, 48, 2), 0);
    assert_eq!(airtime_us(0, 4, 32, 32, 48, 2), 0);
    assert_eq!(airtime_ms_ceil(0), 1);
}

#[test]
fn preamble_maps_on_steps_and_rounds_up() {
    for code in 0u8..8 {
        let bits = preamble_bits_of_code(code);
        assert_eq!(preamble_code_for_bits(bits as u16), Some(code));
    }
    assert_eq!(preamble_bits_of_code(0), 4);
    assert_eq!(preamble_bits_of_code(7), 32);
    // Between steps: 5..8 all land on the 8-bit step.
    for bits in 5u16..=8 {
        assert_eq!(preamble_code_for_bits(bits), Some(1));
    }
    assert_eq!(preamble_code_for_bits(29), Some(7));
}

#[test]
fn preamble_outside_the_register_is_refused() {
    assert_eq!(preamble_code_for_bits(0), None);
    assert_eq!(preamble_code_for_bits(3), None);
    assert_eq!(preamble_code_for_bits(33), None);
    assert_eq!(preamble_code_for_bits(1024), None);
}

#[test]
fn lora_airtime_matches_the_semtech_formula() {
    assert_eq!(lora_airtime_us(7, 125_000, 1, 20, 8), 56_577);
    assert_eq!(airtime_ms_ceil(lora_airtime_us(7, 125_000, 1, 20, 8)), 57);
    // Doubling the bandwidth halves the time; raising SF by one roughly doubles it.
    let base = lora_airtime_us(7, 125_000, 1, 20, 8);
    let wide = lora_airtime_us(7, 250_000, 1, 20, 8);
    let slow = lora_airtime_us(8, 125_000, 1, 20, 8);
    assert!(wide * 2 >= base - 2 && wide * 2 <= base + 2);
    assert!(slow > base * 3 / 2 && slow < base * 5 / 2);
    // Heavier coding lengthens it; a longer preamble lengthens it.
    assert!(lora_airtime_us(7, 125_000, 4, 20, 8) > base);
    assert!(lora_airtime_us(7, 125_000, 1, 20, 16) > base);
    // The LDRO condition is SF>=11 at 125 kHz, and it costs symbols.
    assert!(lora_airtime_us(11, 125_000, 1, 20, 8) > lora_airtime_us(11, 250_000, 1, 20, 8));
}

#[test]
fn lora_airtime_spans_three_orders_of_magnitude_from_flrc() {
    let flrc = airtime_us(0, 1, 32, 32, 48, 2);
    let lora_max = lora_airtime_us(12, 125_000, 4, 247, 8);
    assert!(lora_max > 10_000_000, "{lora_max}");
    assert!(lora_max / flrc > 1000);
    // …and it still fits the fleet's u16 millisecond field.
    assert!(airtime_ms_ceil(lora_max) < u16::MAX);
}

#[test]
fn lora_airtime_refuses_impossible_arguments() {
    assert_eq!(lora_airtime_us(4, 125_000, 1, 20, 8), 0);
    assert_eq!(lora_airtime_us(13, 125_000, 1, 20, 8), 0);
    assert_eq!(lora_airtime_us(7, 125_000, 0, 20, 8), 0);
    assert_eq!(lora_airtime_us(7, 125_000, 5, 20, 8), 0);
    assert_eq!(lora_airtime_us(7, 0, 1, 20, 8), 0);
    // …and the millisecond field still refuses to hand a host a zero deadline.
    assert_eq!(airtime_ms_ceil(0), 1);
}

#[test]
fn lrfhss_airtime_is_seconds_not_milliseconds() {
    assert_eq!(lrfhss_airtime_us(3, 3, 50), 3_403_776);
    assert_eq!(airtime_ms_ceil(lrfhss_airtime_us(3, 3, 50)), 3404);
    // Lighter coding is faster; more header replicas cost exactly 114 bits each.
    assert!(lrfhss_airtime_us(0, 3, 50) < lrfhss_airtime_us(3, 3, 50));
    assert_eq!(
        lrfhss_airtime_us(3, 4, 50) - lrfhss_airtime_us(3, 3, 50),
        LRFHSS_HEADER_BITS * LRFHSS_BIT_US
    );
    // Even an empty payload is ~1 s: the trailer and the headers alone dominate.
    assert!(lrfhss_airtime_us(3, 3, 0) > 500_000);
    // An unknown coding rate invents nothing.
    assert_eq!(lrfhss_airtime_us(4, 3, 50), 0);
    // The block count is the same cut of the same frame the duration is computed from.
    assert_eq!(lrfhss_block_count(3, 50), 27); // 26 whole 48-bit fragments + an 18-bit tail
    assert_eq!(lrfhss_block_count(4, 50), 0);
    assert!(lrfhss_block_count(0, 50) < lrfhss_block_count(3, 50));
    // The full payload is many seconds and still inside a u32 of microseconds.
    assert!(lrfhss_airtime_us(3, 4, 247) > 10_000_000);
    assert!(lrfhss_airtime_us(3, 4, 247) < u32::MAX);
}

#[test]
fn lrfhss_bit_period_is_the_datasheets_own_rate() {
    assert_eq!(LRFHSS_BIT_US, 2048);
    // 1e6 µs/s ÷ 2048 µs/bit = 488.28125 bit/s, checked in the only integer form that is exact.
    assert_eq!(100_000_000u64 / LRFHSS_BIT_US as u64, 48_828);
    assert!(1_000_000 / LRFHSS_BIT_US < 500, "LR-FHSS sits under the 500 bps GFSK floor");
}


#[test]
fn blocks_and_airtime_describe_one_frame() {
    for cr in 0..4u8 {
        for len in [0u16, 1, 20, 50, 247] {
            let bits = lrfhss_airtime_us(cr, 1, len) / LRFHSS_BIT_US - LRFHSS_HEADER_BITS;
            let coded = bits - 2 * lrfhss_block_count(cr, len) as u32;
            let length_bits = (len as u32 + 2) * 8 + 6;
            let (num, den) = [(6u32, 5u32), (3, 2), (2, 1), (3, 1)][cr as usize];
            assert_eq!(coded, (length_bits * num + den - 1) / den);
        }
    }
}

#[test]
fn a_lora_frame_is_covered_to_the_quarter_symbol() {
    // SF7 at 125 kHz: 1024 us a symbol, 8 + 4.25 symbols ahead of 43 payload symbols.
    assert_eq!(lora_airtime_us(7, 125_000, 1, 20, 8), 12_544 + 44_032 + 1);
}

#[test]
fn airtime_is_rounded_up_once() {
    // 2.4 GHz bandwidth: a symbol of 157.5 us. 55.25 of them are 8704 us.
    assert_eq!(lora_airtime_us(7, 812_500, 1, 20, 8), 8_704 + 1);
    assert_eq!(lora_airtime_us(8, 812_500, 1, 20, 8), 15_833 + 1);
}

#[test]
fn more_of_a_frame_never_shortens_it() {
    for sf in 5..=12u8 {
        for bw in [125_000u32, 812_500] {
            for cr in 1..=3u8 {
                for len in [0u16, 3, 4, 60] {
                    let base = lora_airtime_us(sf, bw, cr, len, 8);
                    assert!(lora_airtime_us(sf, bw, cr + 1, len, 8) >= base);
                    assert!(lora_airtime_us(sf, bw, cr, len + 1, 8) >= base);
                    assert!(lora_airtime_us(sf, bw, cr, len, 9) >= base);
                }
            }
        }
    }
}

#[test]
fn milliseconds_saturate_at_the_field() {
    assert_eq!(airtime_ms_ceil(1_000), 1);
    assert_eq!(airtime_ms_ceil(1_001), 2);
    assert_eq!(airtime_ms_ceil(65_534_001), u16::MAX);
    assert_eq!(airtime_ms_ceil(u32::MAX), u16::MAX);
}
