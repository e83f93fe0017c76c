//! Wraparound-safe arithmetic over the cyclic 16-bit sequence number space.
//!
//! Sequence numbers live modulo 65536. They are never ordered by their raw
//! value, only by the signed distance between them, which stays meaningful as
//! long as the two numbers compared are less than half the space apart.

use vstd::prelude::*;
use crate::convert::u16_from_i64;

verus! {

/// Size of the sequence number space.
pub const SEQUENCE_MODULO: i32 = 65536;

/// Half of the sequence number space: the farthest two numbers can be apart.
pub const SEQUENCE_HALF_RANGE: i32 = 32768;

/// Signed cyclic distance from `b` to `a`: the plain difference `a - b`, brought
/// back by one modulus when it lies more than half the space away from zero.
///
/// A plain difference of exactly half the space is left as it is, whatever its
/// sign: `spec_seq_diff(32768, 0)` is `32768` and `spec_seq_diff(0, 32768)` is
/// `-32768`.
pub open spec fn spec_seq_diff(a: u16, b: u16) -> int {
    let d = a as int - b as int;
    if d > 32768 {
        d - 65536
    } else if d < -32768 {
        d + 65536
    } else {
        d
    }
}

/// `a` is newer than `b` when the signed cyclic distance from `b` to `a` is positive.
pub open spec fn spec_seq_is_newer(a: u16, b: u16) -> bool {
    spec_seq_diff(a, b) > 0
}

/// The sequence number `steps` places after `seq`, wrapping at the modulus.
pub open spec fn spec_seq_add(seq: u16, steps: int) -> u16 {
    ((seq as int + steps) % 65536) as u16
}

/// How many single steps forward lead from `from` to `to`: a number in `0..65536`.
pub open spec fn spec_seq_gap(from: u16, to: u16) -> int {
    (to as int - from as int) % 65536
}

/// Signed cyclic distance from `b` to `a`.
pub fn seq_diff(a: u16, b: u16) -> (d: i32)
    ensures
        d == spec_seq_diff(a, b),
        -32768 <= d <= 32768,
{
    let mut diff: i32 = (a as i32) - (b as i32);
    if diff > SEQUENCE_HALF_RANGE {
        diff -= SEQUENCE_MODULO;
    } else if diff < -SEQUENCE_HALF_RANGE {
        diff += SEQUENCE_MODULO;
    }
    diff
}

/// Whether `a` comes strictly after `b` in the cyclic order.
pub fn seq_is_newer(a: u16, b: u16) -> (newer: bool)
    ensures
        newer == spec_seq_is_newer(a, b),
{
    seq_diff(a, b) > 0
}

/// The distance from a number to itself is zero.
pub proof fn lemma_diff_self_is_zero(a: u16)
    ensures
        spec_seq_diff(a, a) == 0,
        !spec_seq_is_newer(a, a),
{
}

/// The distance is antisymmetric, and it is zero only between equal numbers.
pub proof fn lemma_diff_antisymmetric(a: u16, b: u16)
    ensures
        spec_seq_diff(a, b) == -spec_seq_diff(b, a),
        spec_seq_diff(a, b) == 0 <==> a == b,
        -32768 <= spec_seq_diff(a, b) <= 32768,
{
}

/// Of two different sequence numbers exactly one is newer than the other.
pub proof fn lemma_newer_is_asymmetric(a: u16, b: u16)
    requires
        a != b,
    ensures
        spec_seq_is_newer(a, b) == !spec_seq_is_newer(b, a),
{
}

/// Distances add up along the way, as long as the whole way stays within half
/// the space: the order is then transitive.
pub proof fn lemma_diff_adds_up(a: u16, b: u16, c: u16)
    requires
        -32768 < spec_seq_diff(a, b) + spec_seq_diff(b, c) < 32768,
    ensures
        spec_seq_diff(a, c) == spec_seq_diff(a, b) + spec_seq_diff(b, c),
        spec_seq_is_newer(a, b) && spec_seq_is_newer(b, c) ==> spec_seq_is_newer(a, c),
{
}

/// The sequence number that follows `seq`, wrapping from 65535 to 0.
pub fn seq_next(seq: u16) -> (next: u16)
    ensures
        next == spec_seq_add(seq, 1),
{
    seq.wrapping_add(1)
}

/// Stepping forward less than half the space gives a number that many places
/// newer, and one further step continues the walk.
pub proof fn lemma_walk_step(seq: u16, steps: int)
    requires
        0 <= steps < 32768,
    ensures
        spec_seq_diff(spec_seq_add(seq, steps), seq) == steps,
        spec_seq_add(spec_seq_add(seq, steps), 1) == spec_seq_add(seq, steps + 1),
        spec_seq_add(seq, 0) == seq,
{
}

/// One step after `steps` steps is `steps + 1` steps, however long the walk.
pub proof fn lemma_walk_continues(seq: u16, steps: int)
    requires
        0 <= steps,
    ensures
        spec_seq_add(spec_seq_add(seq, steps), 1) == spec_seq_add(seq, steps + 1),
{
}

/// A walk forward from `from` meets `to` after exactly `spec_seq_gap(from, to)`
/// steps, and not before.
pub proof fn lemma_walk_meets(from: u16, to: u16, steps: int)
    requires
        0 <= steps < 65536,
    ensures
        0 <= spec_seq_gap(from, to) < 65536,
        spec_seq_add(from, steps) == to <==> steps == spec_seq_gap(from, to),
{
}

/// Walking on from the number that follows `from` is walking from `from` one
/// step further, and the walk stands one past `to` exactly when `to` was
/// reached one step before.
pub proof fn lemma_walk_from_next(from: u16, to: u16, steps: int)
    requires
        0 <= steps < 65536,
    ensures
        spec_seq_add(spec_seq_add(from, 1), steps) == spec_seq_add(from, steps + 1),
        spec_seq_add(from, steps + 1) == spec_seq_add(to, 1) <==> steps == spec_seq_gap(from, to),
        steps < spec_seq_gap(from, to) ==> spec_seq_gap(spec_seq_add(from, steps + 1), to)
            == spec_seq_gap(from, to) - steps - 1,
{
}

/// Both numbers as sequence numbers, when both lie in `0..=65535`.
pub open spec fn spec_valid_sequences(a: i64, b: i64) -> Option<(u16, u16)> {
    if 0 <= a <= 65535 && 0 <= b <= 65535 {
        Some((a as u16, b as u16))
    } else {
        None
    }
}

/// A counter that hands out consecutive sequence numbers, wrapping at the
/// modulus. Before the first call of `next` it stands at `-1`.
pub struct PacketSequence {
    sequence: i64,
}

impl PacketSequence {
    /// The number handed out last, or `-1` when none was.
    pub closed spec fn value(&self) -> int {
        self.sequence as int
    }

    /// The counter stands at `-1` or at a sequence number.
    pub open spec fn wf(&self) -> bool {
        -1 <= self.value() <= 65535
    }

    /// A counter that has handed out nothing yet.
    pub fn new() -> (counter: Self)
        ensures
            counter.wf(),
            counter.value() == -1,
    {
        PacketSequence { sequence: -1 }
    }

    /// The number handed out last, or `-1` when none was.
    pub fn current(&self) -> (sequence: i64)
        ensures
            sequence == self.value(),
    {
        self.sequence
    }

    /// Advances the counter by one, wrapping from 65535 to 0, and returns the
    /// new number.
    pub fn next(&mut self) -> (sequence: i64)
        requires
            old(self).wf(),
        ensures
            final(self).wf(),
            final(self).value() == (old(self).value() + 1) % 65536,
            sequence == final(self).value(),
            0 <= sequence <= 65535,
    {
        self.sequence = (self.sequence + 1) % (SEQUENCE_MODULO as i64);
        self.sequence
    }

    /// Both numbers as sequence numbers, or nothing when either lies outside
    /// `0..=65535`.
    pub fn valid_sequences(a: i64, b: i64) -> (pair: Option<(u16, u16)>)
        ensures
            pair == spec_valid_sequences(a, b),
    {
        let a = match u16_from_i64(a) {
            Some(a) => a,
            None => {
                return None;
            },
        };
        let b = match u16_from_i64(b) {
            Some(b) => b,
            None => {
                return None;
            },
        };
        Some((a, b))
    }

    /// Signed cyclic distance from `b` to `a`, or `-1` when either is no
    /// sequence number.
    pub fn diff(a: i64, b: i64) -> (d: i64)
        ensures
            match spec_valid_sequences(a, b) {
                Some((a, b)) => d == spec_seq_diff(a, b),
                None => d == -1,
            },
    {
        match Self::valid_sequences(a, b) {
            Some((a, b)) => seq_diff(a, b) as i64,
            None => -1,
        }
    }

    /// Whether `a` is newer than `b`; `false` when either is no sequence number.
    pub fn is_newer(a: i64, b: i64) -> (newer: bool)
        ensures
            newer == match spec_valid_sequences(a, b) {
                Some((a, b)) => spec_seq_is_newer(a, b),
                None => false,
            },
    {
        match Self::valid_sequences(a, b) {
            Some((a, b)) => seq_is_newer(a, b),
            None => false,
        }
    }

    /// Whether `a` is newer than `b` or equal to it; `false` when either is no
    /// sequence number.
    pub fn is_newer_or_equal(a: i64, b: i64) -> (newer_or_equal: bool)
        ensures
            newer_or_equal == match spec_valid_sequences(a, b) {
                Some((a, b)) => spec_seq_is_newer(a, b) || a == b,
                None => false,
            },
    {
        match Self::valid_sequences(a, b) {
            Some((a, b)) => seq_is_newer(a, b) || a == b,
            None => false,
        }
    }
}

} // verus!
