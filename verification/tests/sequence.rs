use netsync::convert::{
    i64_to_wire_u16, i64_to_wire_u32, i64_to_wire_u8, u16_to_host, u32_to_host, u8_to_host,
};
use netsync::sequence::{
    seq_diff, seq_is_newer, seq_next, PacketSequence, SEQUENCE_HALF_RANGE, SEQUENCE_MODULO,
};

#[test]
fn diff_of_a_number_with_itself_is_zero() {
    for a in [0u16, 1, 100, 32767, 32768, 65535] {
        assert_eq!(seq_diff(a, a), 0);
        assert!(!seq_is_newer(a, a));
    }
}

#[test]
fn diff_is_the_plain_difference_when_close() {
    assert_eq!(seq_diff(10, 5), 5);
    assert_eq!(seq_diff(5, 10), -5);
    assert_eq!(seq_diff(8, 4), 4);
    assert_eq!(seq_diff(8, 5), 3);
}

#[test]
fn diff_folds_across_the_wrap() {
    assert_eq!(seq_diff(0, 65535), 1);
    assert_eq!(seq_diff(65535, 0), -1);
    assert_eq!(seq_diff(3, 65530), 9);
    assert_eq!(seq_diff(65530, 3), -9);
    assert_eq!(seq_diff(0, 32769), 32767);
    assert_eq!(seq_diff(32769, 0), -32767);
}

#[test]
fn diff_at_half_the_space_keeps_its_sign() {
    assert_eq!(seq_diff(32768, 0), 32768);
    assert_eq!(seq_diff(0, 32768), -32768);
    assert!(seq_is_newer(32768, 0));
    assert!(!seq_is_newer(0, 32768));
    assert_eq!(SEQUENCE_HALF_RANGE * 2, SEQUENCE_MODULO);
}

#[test]
fn of_two_different_numbers_exactly_one_is_newer() {
    let samples = [0u16, 1, 2, 127, 128, 129, 1000, 32767, 32768, 32769, 40000, 65534, 65535];
    for a in samples {
        for b in samples {
            if a != b {
                assert_eq!(seq_is_newer(a, b), !seq_is_newer(b, a));
                assert_eq!(seq_diff(a, b), -seq_diff(b, a));
            }
        }
    }
}

#[test]
fn newer_follows_the_wrap() {
    assert!(seq_is_newer(0, 65535));
    assert!(!seq_is_newer(65535, 0));
    assert!(seq_is_newer(5, 3));
    assert!(!seq_is_newer(3, 5));
}

#[test]
fn next_sequence_number_wraps() {
    assert_eq!(seq_next(0), 1);
    assert_eq!(seq_next(65534), 65535);
    assert_eq!(seq_next(65535), 0);
}

#[test]
fn counter_starts_before_zero_and_counts_up() {
    let mut counter = PacketSequence::new();
    assert_eq!(counter.current(), -1);
    assert_eq!(counter.next(), 0);
    assert_eq!(counter.current(), 0);
    assert_eq!(counter.next(), 1);
    assert_eq!(counter.next(), 2);
    assert_eq!(counter.current(), 2);
}

#[test]
fn counter_wraps_at_the_modulus() {
    let mut counter = PacketSequence::new();
    for expected in 0..65536i64 {
        assert_eq!(counter.next(), expected);
    }
    assert_eq!(counter.current(), 65535);
    assert_eq!(counter.next(), 0);
    assert_eq!(counter.next(), 1);
}

#[test]
fn valid_sequences_takes_the_whole_range_and_no_more() {
    assert_eq!(PacketSequence::valid_sequences(0, 65535), Some((0, 65535)));
    assert_eq!(PacketSequence::valid_sequences(12, 7), Some((12, 7)));
    assert_eq!(PacketSequence::valid_sequences(-1, 7), None);
    assert_eq!(PacketSequence::valid_sequences(7, 65536), None);
    assert_eq!(PacketSequence::valid_sequences(i64::MAX, i64::MIN), None);
}

#[test]
fn checked_diff_answers_minus_one_for_what_is_no_sequence_number() {
    assert_eq!(PacketSequence::diff(10, 5), 5);
    assert_eq!(PacketSequence::diff(0, 65535), 1);
    assert_eq!(PacketSequence::diff(-1, 5), -1);
    assert_eq!(PacketSequence::diff(5, 70000), -1);
}

#[test]
fn checked_comparisons_refuse_what_is_no_sequence_number() {
    assert!(PacketSequence::is_newer(1, 65535));
    assert!(!PacketSequence::is_newer(65535, 1));
    assert!(!PacketSequence::is_newer(5, 5));
    assert!(!PacketSequence::is_newer(70000, 1));
    assert!(!PacketSequence::is_newer(1, -3));
    assert!(PacketSequence::is_newer_or_equal(5, 5));
    assert!(PacketSequence::is_newer_or_equal(6, 5));
    assert!(!PacketSequence::is_newer_or_equal(5, 6));
    assert!(!PacketSequence::is_newer_or_equal(65536, 65536));
}

#[test]
fn host_integers_narrow_to_the_wire_or_become_zero() {
    assert_eq!(i64_to_wire_u8(0), 0);
    assert_eq!(i64_to_wire_u8(255), 255);
    assert_eq!(i64_to_wire_u8(256), 0);
    assert_eq!(i64_to_wire_u8(300), 0);
    assert_eq!(i64_to_wire_u8(-1), 0);
    assert_eq!(i64_to_wire_u16(65535), 65535);
    assert_eq!(i64_to_wire_u16(65536), 0);
    assert_eq!(i64_to_wire_u16(-7), 0);
    assert_eq!(i64_to_wire_u32(4_294_967_295), 4_294_967_295);
    assert_eq!(i64_to_wire_u32(4_294_967_296), 0);
    assert_eq!(i64_to_wire_u32(i64::MIN), 0);
}

#[test]
fn wire_integers_widen_to_the_host() {
    assert_eq!(u8_to_host(255), 255);
    assert_eq!(u16_to_host(65535), 65535);
    assert_eq!(u32_to_host(u32::MAX), 4_294_967_295);
}
