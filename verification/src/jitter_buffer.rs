//! A jitter buffer: reassembles one stream of sequenced packets.
//!
//! Packets are stored under their sequence number as they arrive. The reader
//! takes them out in order, a few per tick. Where a packet is missing it waits
//! while the gap is young, and gives the packet up for lost once the stream has
//! moved far enough past it. Gaps are aged by sequence distance, never by the
//! clock.

use std::collections::HashMap;
use vstd::prelude::*;
use vstd::set_lib::{lemma_int_range, lemma_len_subset, lemma_map_size, set_int_range};
use crate::convert::u16_from_i64;
use crate::sequence::{
    lemma_walk_meets, lemma_walk_step, seq_diff, seq_is_newer, seq_next, spec_seq_add,
    spec_seq_diff, spec_seq_gap, spec_seq_is_newer,
};

verus! {

broadcast use vstd::std_specs::hash::group_hash_axioms;

/// Most packets that one call of `consume` hands out, and most missing
/// packets that it gives up.
pub const MAX_FRAMES_PER_TICK: usize = 4;

/// A missing packet is waited for while the newest packet received is fewer
/// than this many sequence numbers ahead of it.
pub const PACKET_LOSS_TOLERANCE: i32 = 4;

/// The time that a packet stands for when it is replayed.
#[derive(Clone, Copy, Debug, PartialEq, Eq)]
pub enum PacingDelta {
    /// The microseconds from the timestamp of the packet stored before to this
    /// packet's timestamp; negative when the timestamps run backwards.
    SinceLast { micros: i128 },
    /// No packet came before: one tick of the simulation, whatever its length.
    DefaultTick,
}

/// A packet with its timestamp and the time that it stands for.
pub struct TimestampedPacket<T> {
    pub delta: PacingDelta,
    pub timestamp_us: i64,
    pub packet: T,
}

/// What `enqueue` did with a packet.
#[derive(Clone, Copy, Debug, PartialEq, Eq)]
pub enum EnqueueOutcome {
    /// The packet is stored.
    Stored,
    /// The sequence id lies outside `0..=65535`; nothing changed.
    InvalidSequence,
    /// The sequence id is not newer than the newest one received; nothing changed.
    Stale,
}

/// The pacing of a packet stamped `timestamp_us`: the difference to the
/// timestamp of the packet stored before it, or one tick when none was.
pub open spec fn spec_pacing(last_timestamp_us: Option<i64>, timestamp_us: i64) -> PacingDelta {
    match last_timestamp_us {
        Some(last) => PacingDelta::SinceLast { micros: (timestamp_us - last) as i128 },
        None => PacingDelta::DefaultTick,
    }
}

/// The pacing difference is the plain difference of the two timestamps, for
/// every pair of them.
pub proof fn lemma_pacing_is_exact(last_timestamp_us: i64, timestamp_us: i64)
    ensures
        spec_pacing(Some(last_timestamp_us), timestamp_us) matches PacingDelta::SinceLast { micros }
            && micros as int == timestamp_us as int - last_timestamp_us as int,
{
}

/// The mathematical content of a jitter buffer.
#[verifier::ext_equal]
pub struct JitterModel<T> {
    /// The packets waiting to be read, by sequence number.
    pub packets: Map<u16, TimestampedPacket<T>>,
    /// The sequence number that the reader expects next.
    pub next_sequence_id: u16,
    /// The timestamp of the packet stored last; nothing before the first.
    pub last_received_timestamp_us: Option<i64>,
    /// The newest sequence number received.
    pub last_sequence_id: u16,
}

impl<T> JitterModel<T> {
    /// What `enqueue` does with a packet of this sequence id: it is stored
    /// exactly when the id is a sequence number strictly newer than the newest
    /// one received, whatever its timestamp.
    pub open spec fn outcome(self, sequence_id: i64) -> EnqueueOutcome {
        if !(0 <= sequence_id <= 65535) {
            EnqueueOutcome::InvalidSequence
        } else if !spec_seq_is_newer(sequence_id as u16, self.last_sequence_id) {
            EnqueueOutcome::Stale
        } else {
            EnqueueOutcome::Stored
        }
    }

    /// The buffer after `enqueue`.
    pub open spec fn enqueued(self, sequence_id: i64, timestamp_us: i64, packet: T) -> Self {
        match self.outcome(sequence_id) {
            EnqueueOutcome::InvalidSequence | EnqueueOutcome::Stale => self,
            EnqueueOutcome::Stored => JitterModel {
                packets: self.packets.insert(
                    sequence_id as u16,
                    TimestampedPacket {
                        delta: spec_pacing(self.last_received_timestamp_us, timestamp_us),
                        timestamp_us,
                        packet,
                    },
                ),
                next_sequence_id: self.next_sequence_id,
                last_received_timestamp_us: Some(timestamp_us),
                last_sequence_id: sequence_id as u16,
            },
        }
    }

    /// The timestamp that the buffer reports as received last: that of the
    /// packet stored last, and zero before the first.
    pub open spec fn reported_timestamp_us(self) -> i64 {
        match self.last_received_timestamp_us {
            Some(timestamp_us) => timestamp_us,
            None => 0,
        }
    }

    /// Where the reader stands after giving up missing packets, starting at
    /// `cursor` with `budget` packets to give up at most. It stops at a packet
    /// that is there, and at a missing one that is still waited for.
    pub open spec fn skip_cursor(self, cursor: u16, budget: int) -> u16
        decreases budget,
    {
        if budget <= 0 || self.packets.contains_key(cursor) || spec_seq_diff(
            self.last_sequence_id,
            cursor,
        ) < 4 {
            cursor
        } else {
            self.skip_cursor(spec_seq_add(cursor, 1), budget - 1)
        }
    }

    /// How many packets in a row are there from `cursor` on, `budget` at most.
    pub open spec fn run_length(self, cursor: u16, budget: int) -> int
        decreases budget,
    {
        if budget <= 0 || !self.packets.contains_key(cursor) {
            0
        } else {
            1 + self.run_length(spec_seq_add(cursor, 1), budget - 1)
        }
    }

    /// Where one call of `consume` starts to read.
    pub open spec fn read_start(self) -> u16 {
        self.skip_cursor(self.next_sequence_id, 4)
    }

    /// How many packets one call of `consume` hands out.
    pub open spec fn read_count(self) -> int {
        self.run_length(self.read_start(), 4)
    }

    /// The packets that one call of `consume` hands out, in order.
    pub open spec fn consumed(self) -> Seq<TimestampedPacket<T>> {
        Seq::new(
            self.read_count() as nat,
            |i: int| self.packets[spec_seq_add(self.read_start(), i)],
        )
    }

    /// The buffer after one call of `consume`: the packets handed out are gone
    /// and the reader stands behind them.
    pub open spec fn after_consume(self) -> Self {
        JitterModel {
            packets: self.packets.remove_keys(
                Set::new(|seq: u16| spec_seq_gap(self.read_start(), seq) < self.read_count()),
            ),
            next_sequence_id: spec_seq_add(self.read_start(), self.read_count()),
            last_received_timestamp_us: self.last_received_timestamp_us,
            last_sequence_id: self.last_sequence_id,
        }
    }

    /// A packet whose sequence number is not newer than the newest one
    /// received leaves the buffer as it is.
    pub proof fn lemma_stale_packet_changes_nothing(
        self,
        sequence_id: i64,
        timestamp_us: i64,
        packet: T,
    )
        requires
            0 <= sequence_id <= 65535,
            !spec_seq_is_newer(sequence_id as u16, self.last_sequence_id),
        ensures
            self.outcome(sequence_id) == EnqueueOutcome::Stale,
            self.enqueued(sequence_id, timestamp_us, packet) == self,
    {
    }

    /// A run is never longer than its budget.
    pub proof fn lemma_run_length_bounds(self, cursor: u16, budget: int)
        requires
            0 <= budget,
        ensures
            0 <= self.run_length(cursor, budget) <= budget,
        decreases budget,
    {
        if budget > 0 && self.packets.contains_key(cursor) {
            self.lemma_run_length_bounds(spec_seq_add(cursor, 1), budget - 1);
        }
    }

    /// One call of `consume` hands out four packets at most.
    pub proof fn lemma_consume_is_bounded(self)
        ensures
            self.consumed().len() <= 4,
            0 <= self.read_count() <= 4,
    {
        self.lemma_run_length_bounds(self.read_start(), 4);
    }
}

/// A finite set of sequence numbers has 65536 members at most.
pub proof fn lemma_sequence_set_is_small(numbers: Set<u16>)
    requires
        numbers.finite(),
    ensures
        numbers.len() <= 65536,
{
    let widen = |seq: u16| seq as int;
    let wide = numbers.map(widen);
    assert(vstd::relations::injective_on(widen, numbers));
    lemma_map_size(numbers, wide, widen);
    lemma_int_range(0, 65536);
    assert(wide.subset_of(set_int_range(0, 65536)));
    lemma_len_subset(wide, set_int_range(0, 65536));
}

/// A jitter buffer for packets of type `T`.
pub struct JitterBuffer<T> {
    packets: HashMap<u16, TimestampedPacket<T>>,
    next_sequence_id: u16,
    last_received_timestamp_us: Option<i64>,
    last_sequence_id: u16,
}

impl<T> View for JitterBuffer<T> {
    type V = JitterModel<T>;

    closed spec fn view(&self) -> JitterModel<T> {
        JitterModel {
            packets: self.packets@,
            next_sequence_id: self.next_sequence_id,
            last_received_timestamp_us: self.last_received_timestamp_us,
            last_sequence_id: self.last_sequence_id,
        }
    }
}

impl<T> JitterBuffer<T> {
    /// An empty buffer: the reader expects sequence number 0, and the newest
    /// number received counts as 65535, the one before it.
    pub fn new() -> (buffer: Self)
        ensures
            buffer@.packets == Map::<u16, TimestampedPacket<T>>::empty(),
            buffer@.packets.dom().finite(),
            buffer@.next_sequence_id == 0,
            buffer@.last_received_timestamp_us is None,
            buffer@.last_sequence_id == 65535,
    {
        JitterBuffer {
            packets: HashMap::with_capacity(64),
            next_sequence_id: 0,
            last_received_timestamp_us: None,
            last_sequence_id: 65535,
        }
    }

    /// Takes a packet in, and says what became of it.
    ///
    /// Every sequence id strictly newer than the newest one received is taken,
    /// whatever its timestamp, and no other. It becomes the newest, and the
    /// packet is stored under it with the time since the packet stored before.
    pub fn enqueue(&mut self, sequence_id: i64, timestamp_us: i64, packet: T) -> (outcome:
        EnqueueOutcome)
        ensures
            outcome == old(self)@.outcome(sequence_id),
            final(self)@ == old(self)@.enqueued(sequence_id, timestamp_us, packet),
            final(self)@.packets.dom().finite(),
    {
        let sequence_id = match u16_from_i64(sequence_id) {
            Some(sequence_id) => sequence_id,
            None => {
                return EnqueueOutcome::InvalidSequence;
            },
        };
        if !seq_is_newer(sequence_id, self.last_sequence_id) {
            return EnqueueOutcome::Stale;
        }
        self.last_sequence_id = sequence_id;
        let delta = match self.last_received_timestamp_us {
            Some(last_timestamp_us) => PacingDelta::SinceLast {
                micros: timestamp_us as i128 - last_timestamp_us as i128,
            },
            None => PacingDelta::DefaultTick,
        };
        self.last_received_timestamp_us = Some(timestamp_us);
        self.packets.insert(sequence_id, TimestampedPacket { delta, timestamp_us, packet });
        assert(self@ =~= old(self)@.enqueued(sequence_id as i64, timestamp_us, packet));
        EnqueueOutcome::Stored
    }

    /// Hands out the packets that are due, in order, four at most.
    ///
    /// Where the packet expected next is missing, the reader first gives up
    /// missing packets, four at most, but stops and waits at one that the
    /// newest packet received is fewer than four sequence numbers ahead of.
    /// Then it takes out the packets that are there in a row.
    pub fn consume(&mut self) -> (consumed: Vec<TimestampedPacket<T>>)
        ensures
            consumed@ == old(self)@.consumed(),
            final(self)@ == old(self)@.after_consume(),
            final(self)@.packets.dom().finite(),
            consumed@.len() <= 4,
    {
        let ghost before = self@;
        let mut skipped: usize = 0;
        while skipped < MAX_FRAMES_PER_TICK
            invariant
                0 <= skipped <= 4,
                before == old(self)@,
                self@.packets == before.packets,
                self@.last_sequence_id == before.last_sequence_id,
                self@.last_received_timestamp_us == before.last_received_timestamp_us,
                before.read_start() == before.skip_cursor(self@.next_sequence_id, 4 - skipped),
            ensures
                self@.packets == before.packets,
                self@.last_sequence_id == before.last_sequence_id,
                self@.last_received_timestamp_us == before.last_received_timestamp_us,
                self@.next_sequence_id == before.read_start(),
            decreases 4 - skipped,
        {
            if self.packets.contains_key(&self.next_sequence_id) {
                break ;
            }
            let diff = seq_diff(self.last_sequence_id, self.next_sequence_id);
            if diff < PACKET_LOSS_TOLERANCE {
                let waiting: Vec<TimestampedPacket<T>> = Vec::new();
                proof {
                    lemma_walk_step(self@.next_sequence_id, 0);
                    assert(before.read_count() == 0);
                    assert(waiting@ =~= before.consumed());
                    assert(self@ =~= before.after_consume());
                }
                return waiting;
            }
            self.next_sequence_id = seq_next(self.next_sequence_id);
            skipped += 1;
        }
        let ghost start = before.read_start();
        let mut consumed: Vec<TimestampedPacket<T>> = Vec::new();
        let mut taken: usize = 0;
        proof {
            lemma_walk_step(start, 0);
            before.lemma_consume_is_bounded();
            assert(self@.packets =~= before.packets.remove_keys(
                Set::new(|seq: u16| spec_seq_gap(start, seq) < 0),
            ));
        }
        while taken < MAX_FRAMES_PER_TICK
            invariant
                0 <= taken <= 4,
                start == before.read_start(),
                self@.last_sequence_id == before.last_sequence_id,
                self@.last_received_timestamp_us == before.last_received_timestamp_us,
                self@.next_sequence_id == spec_seq_add(start, taken as int),
                before.read_count() == taken + before.run_length(
                    self@.next_sequence_id,
                    4 - taken,
                ),
                self@.packets == before.packets.remove_keys(
                    Set::new(|seq: u16| spec_seq_gap(start, seq) < taken),
                ),
                consumed@.len() == taken,
                forall|i: int|
                    0 <= i < taken ==> consumed@[i] == before.packets[spec_seq_add(start, i)],
            ensures
                taken == before.read_count(),
                self@.last_sequence_id == before.last_sequence_id,
                self@.last_received_timestamp_us == before.last_received_timestamp_us,
                self@.next_sequence_id == spec_seq_add(start, taken as int),
                self@.packets == before.packets.remove_keys(
                    Set::new(|seq: u16| spec_seq_gap(start, seq) < taken),
                ),
                consumed@.len() == taken,
                forall|i: int|
                    0 <= i < taken ==> consumed@[i] == before.packets[spec_seq_add(start, i)],
            decreases 4 - taken,
        {
            let ghost cursor = self.next_sequence_id;
            let ghost remaining = self.packets@;
            proof {
                lemma_walk_meets(start, cursor, taken as int);
                lemma_walk_step(start, taken as int);
            }
            match self.packets.remove(&self.next_sequence_id) {
                Some(packet) => {
                    consumed.push(packet);
                    self.next_sequence_id = seq_next(self.next_sequence_id);
                    proof {
                        assert forall|seq: u16|
                            (spec_seq_gap(start, seq) < taken + 1) == (spec_seq_gap(start, seq)
                                < taken || seq == cursor) by {
                            lemma_walk_meets(start, seq, taken as int);
                        }
                        assert(self@.packets =~= before.packets.remove_keys(
                            Set::new(|seq: u16| spec_seq_gap(start, seq) < taken + 1),
                        ));
                    }
                },
                None => {
                    assert(self@.packets =~= remaining);
                    break ;
                },
            }
            taken += 1;
        }
        assert(consumed@ =~= before.consumed());
        assert(self@ =~= before.after_consume());
        consumed
    }

    /// Number of packets waiting to be read.
    pub fn size(&self) -> (count: i64)
        ensures
            count == self@.packets.len(),
            self@.packets.dom().finite(),
            0 <= count <= 65536,
    {
        proof {
            lemma_sequence_set_is_small(self.packets@.dom());
        }
        self.packets.len() as i64
    }

    /// The newest sequence number received.
    pub fn last_sequence_id(&self) -> (sequence_id: i64)
        ensures
            sequence_id == self@.last_sequence_id,
    {
        self.last_sequence_id as i64
    }

    /// The timestamp of the packet stored last; zero before the first.
    pub fn last_received_timestamp_us(&self) -> (timestamp_us: i64)
        ensures
            timestamp_us == self@.reported_timestamp_us(),
    {
        match self.last_received_timestamp_us {
            Some(timestamp_us) => timestamp_us,
            None => 0,
        }
    }

    /// The sequence number that the reader expects next.
    pub fn next_sequence_id(&self) -> (sequence_id: i64)
        ensures
            sequence_id == self@.next_sequence_id,
    {
        self.next_sequence_id as i64
    }
}

} // verus!
