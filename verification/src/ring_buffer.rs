//! A fixed-capacity ring of timestamped snapshots with an adaptive playout delay.
//!
//! Each snapshot is stored in the slot that its sequence number selects, and
//! carries the time at which it arrived. The buffer keeps the spacing between
//! the two newest arrivals as its playout delay, and answers, for a point in
//! time, with the two snapshots that bracket the moment one delay earlier.

use vstd::prelude::*;
use crate::convert::u16_from_i64;
use crate::sequence::{
    lemma_walk_continues, lemma_walk_from_next, lemma_walk_meets, lemma_walk_step, seq_diff,
    seq_is_newer, seq_next, spec_seq_add, spec_seq_diff, spec_seq_gap, spec_seq_is_newer,
};

verus! {

/// Number of slots in the ring; a power of two.
pub const BUFFER_SIZE: usize = 128;

/// Selects the slot of a sequence number: the capacity less one.
pub const SLOT_MASK: u16 = 127;

/// Longest playout delay, in microseconds.
pub const MAX_DELAY_US: i64 = 150_000i64;

/// Shortest playout delay, in microseconds.
pub const MIN_DELAY_US: i64 = 33_000i64;

/// A snapshot together with the time at which it arrived.
pub struct BufferEntry<T> {
    pub arrival_timestamp_us: i64,
    pub value: T,
}

/// The slot that a sequence number selects.
pub open spec fn slot_of(seq: u16) -> int {
    seq as int % 128
}

/// How many of the slots hold an entry.
pub open spec fn occupied<T>(slots: Seq<Option<BufferEntry<T>>>) -> nat
    decreases slots.len(),
{
    if slots.len() == 0 {
        0
    } else {
        occupied(slots.drop_last()) + if slots.last() is Some {
            1nat
        } else {
            0nat
        }
    }
}

/// A delay between two arrivals, held within the bounds of the playout delay.
pub open spec fn clamp_delay(delta_us: int) -> int {
    if delta_us < 33_000 {
        33_000
    } else if delta_us > 150_000 {
        150_000
    } else {
        delta_us
    }
}

/// The mathematical content of a ring buffer.
#[verifier::ext_equal]
pub struct RingModel<T> {
    /// The 128 slots; the entry of sequence number `s` lives in `slots[s % 128]`.
    pub slots: Seq<Option<BufferEntry<T>>>,
    /// Where walks over the buffer start.
    pub oldest: u16,
    /// Where walks over the buffer end.
    pub newest: u16,
    /// Number of occupied slots.
    pub count: nat,
    /// The playout delay in microseconds.
    pub delay_us: int,
}

impl<T> RingModel<T> {
    /// The slots are all there, `count` counts the occupied ones, and the delay
    /// is either unset or within its bounds.
    pub open spec fn wf(self) -> bool {
        &&& self.slots.len() == 128
        &&& self.count == occupied(self.slots)
        &&& (self.delay_us == 0 || 33_000 <= self.delay_us <= 150_000)
    }

    /// What the slot of a sequence number holds.
    pub open spec fn entry_of(self, seq: u16) -> Option<BufferEntry<T>> {
        self.slots[slot_of(seq)]
    }

    /// A non-empty buffer refuses a sequence number that lies more than the
    /// capacity away from the newest one, in either direction.
    pub open spec fn out_of_window(self, seq: u16) -> bool {
        self.count > 0 && (spec_seq_diff(self.newest, seq) > 128 || spec_seq_diff(
            self.newest,
            seq,
        ) < -128)
    }

    /// Whether `insert` stores under this sequence id: it must be a sequence
    /// number, and within the window.
    pub open spec fn accepts(self, sequence_id: i64) -> bool {
        0 <= sequence_id <= 65535 && !self.out_of_window(sequence_id as u16)
    }

    /// The playout delay after an insert that extends the front at time
    /// `arrival_us`: the spacing to the entry that was newest until then, held
    /// within the bounds, when that entry exists and arrived strictly earlier;
    /// the delay as it was otherwise.
    pub open spec fn adapted_delay(self, arrival_us: i64) -> int {
        match self.entry_of(self.newest) {
            Some(previous) => if arrival_us - previous.arrival_timestamp_us > 0 {
                clamp_delay(arrival_us - previous.arrival_timestamp_us)
            } else {
                self.delay_us
            },
            None => self.delay_us,
        }
    }

    /// Number of entries after an accepted insert: one more when the slot was
    /// free, as many when it was taken.
    pub open spec fn count_after_insert(self, seq: u16) -> nat {
        if self.entry_of(seq) is None {
            self.count + 1
        } else {
            self.count
        }
    }

    /// The buffer after an accepted insert.
    pub open spec fn inserted(self, seq: u16, arrival_us: i64, value: T) -> Self {
        let slots = self.slots.update(
            slot_of(seq),
            Some(BufferEntry { arrival_timestamp_us: arrival_us, value }),
        );
        let count = self.count_after_insert(seq);
        if count == 1 {
            RingModel { slots, count, oldest: seq, newest: seq, delay_us: self.delay_us }
        } else if spec_seq_is_newer(seq, self.newest) {
            RingModel {
                slots,
                count,
                oldest: self.oldest,
                newest: seq,
                delay_us: self.adapted_delay(arrival_us),
            }
        } else if spec_seq_is_newer(self.oldest, seq) {
            RingModel { slots, count, oldest: seq, newest: self.newest, delay_us: self.delay_us }
        } else {
            RingModel {
                slots,
                count,
                oldest: self.oldest,
                newest: self.newest,
                delay_us: self.delay_us,
            }
        }
    }

    /// Whether an accepted insert finds the front moving backwards in time:
    /// it extends the front of a buffer of two or more entries, the entry that
    /// was newest arrived no earlier, and the two arrival times are not both
    /// the placeholder `-1` of a snapshot that was never acknowledged.
    pub open spec fn regresses(self, seq: u16, arrival_us: i64) -> bool {
        &&& self.count_after_insert(seq) != 1
        &&& spec_seq_is_newer(seq, self.newest)
        &&& self.entry_of(self.newest) matches Some(previous)
        &&& arrival_us - previous.arrival_timestamp_us <= 0
        &&& (arrival_us != -1 || previous.arrival_timestamp_us != -1)
    }

    /// Number of sequence numbers that a walk from `start` visits: it goes
    /// forward one by one, ends at the newest, and gives up after 128 steps.
    pub open spec fn walk_len(self, start: u16) -> int {
        if spec_seq_gap(start, self.newest) < 128 {
            spec_seq_gap(start, self.newest) + 1
        } else {
            129
        }
    }

    /// Whether one of the first `steps` sequence numbers of the walk from the
    /// oldest selects `slot` and is not newer than `limit`.
    pub open spec fn prunes_within(self, limit: u16, slot: int, steps: int) -> bool {
        exists|k: int|
            0 <= k < steps && slot_of(#[trigger] spec_seq_add(self.oldest, k)) == slot
                && !spec_seq_is_newer(spec_seq_add(self.oldest, k), limit)
    }

    /// The buffer after pruning up to `limit`: every slot that the walk from the
    /// oldest reaches under a sequence number not newer than `limit` is empty,
    /// the others are as they were.
    pub open spec fn pruned(self, limit: u16) -> Self {
        let slots = Seq::new(
            128,
            |i: int|
                if self.prunes_within(limit, i, self.walk_len(self.oldest)) {
                    None
                } else {
                    self.slots[i]
                },
        );
        RingModel {
            slots,
            count: occupied(slots),
            oldest: self.oldest,
            newest: self.newest,
            delay_us: self.delay_us,
        }
    }

    /// The values that the first `steps` sequence numbers of the walk from
    /// `start` find in their slots, in the order of the walk.
    pub open spec fn values_within(self, start: u16, steps: int) -> Seq<T>
        decreases steps,
    {
        if steps <= 0 {
            Seq::empty()
        } else {
            match self.entry_of(spec_seq_add(start, steps - 1)) {
                Some(entry) => self.values_within(start, steps - 1).push(entry.value),
                None => self.values_within(start, steps - 1),
            }
        }
    }

    /// The values that the walk from `start` finds, in order.
    pub open spec fn values_from(self, start: u16) -> Seq<T> {
        self.values_within(start, self.walk_len(start))
    }

    /// The first of `steps` consecutive sequence numbers, starting at `from`,
    /// whose slot holds an entry.
    pub open spec fn first_occupied(self, from: u16, steps: int) -> Option<u16>
        decreases steps,
    {
        if steps <= 0 {
            None
        } else if self.entry_of(from) is Some {
            Some(from)
        } else {
            self.first_occupied(spec_seq_add(from, 1), steps - 1)
        }
    }

    /// The first sequence number after the oldest, up to the newest, whose slot
    /// holds an entry.
    pub open spec fn next_after_oldest(self) -> Option<u16> {
        self.first_occupied(spec_seq_add(self.oldest, 1), spec_seq_gap(self.oldest, self.newest))
    }

    /// The buffer after the entry in the slot of the oldest sequence number was
    /// discarded and `next` became the oldest.
    pub open spec fn without_oldest(self, next: u16) -> Self {
        RingModel {
            slots: self.slots.update(slot_of(self.oldest), None),
            oldest: next,
            newest: self.newest,
            count: if self.entry_of(self.oldest) is Some {
                (self.count - 1) as nat
            } else {
                self.count
            },
            delay_us: self.delay_us,
        }
    }

    /// The buffer after catching up with the time `target_us`: while it holds
    /// three entries or more and the entry that follows the oldest arrived
    /// before `target_us`, the oldest is discarded and that entry takes its place.
    pub open spec fn caught_up(self, target_us: int) -> Self
        decreases spec_seq_gap(self.oldest, self.newest),
    {
        if self.count >= 3 {
            match self.next_after_oldest() {
                Some(next) => if target_us > self.entry_of(next).unwrap().arrival_timestamp_us {
                    proof {
                        self.lemma_next_is_closer();
                    }
                    self.without_oldest(next).caught_up(target_us)
                } else {
                    self
                },
                None => self,
            }
        } else {
            self
        }
    }

    /// The slot of the sequence number at position `k` of the walk from the oldest.
    pub open spec fn entry_at(self, k: int) -> Option<BufferEntry<T>> {
        self.entry_of(spec_seq_add(self.oldest, k))
    }

    /// From position `k` of the walk from the oldest on, the position of the
    /// first entry that arrived after `target_us`; the length of the walk when
    /// there is none.
    pub open spec fn first_later(self, target_us: int, k: int) -> int
        decreases self.walk_len(self.oldest) - k,
    {
        if k >= self.walk_len(self.oldest) {
            self.walk_len(self.oldest)
        } else if self.entry_at(k) is Some && self.entry_at(k).unwrap().arrival_timestamp_us
            > target_us {
            k
        } else {
            self.first_later(target_us, k + 1)
        }
    }

    /// The last entry among the first `end` positions of the walk from the oldest.
    pub open spec fn last_entry_before(self, end: int) -> Option<BufferEntry<T>>
        decreases end,
    {
        if end <= 0 {
            None
        } else if self.entry_at(end - 1) is Some {
            self.entry_at(end - 1)
        } else {
            self.last_entry_before(end - 1)
        }
    }

    /// The entry of a buffer that holds exactly one.
    pub open spec fn sole_entry(self) -> Option<BufferEntry<T>> {
        self.slots[choose|i: int| 0 <= i < 128 && (#[trigger] self.slots[i]) is Some]
    }

    /// The answer for the time `target_us`.
    ///
    /// An empty buffer has none. A buffer with one entry answers with that
    /// entry. Otherwise the walk from the oldest sequence number stops at the
    /// first entry that arrived after `target_us`: that entry is `to`, the last
    /// entry before it is `from`. Without a `from` there is no answer; without a
    /// `to` the answer is `from` alone.
    pub open spec fn bracket(self, target_us: int) -> PairModel<T> {
        if self.count == 0 {
            PairModel::invalid()
        } else if self.count == 1 {
            match self.sole_entry() {
                Some(only) => PairModel::single(only.value),
                None => PairModel::invalid(),
            }
        } else {
            let stop = self.first_later(target_us, 0);
            let to = if stop < self.walk_len(self.oldest) {
                self.entry_at(stop)
            } else {
                None
            };
            match (self.last_entry_before(stop), to) {
                (Some(from), Some(to)) => PairModel::between(target_us, from, to),
                (Some(from), None) => PairModel::single(from.value),
                _ => PairModel::invalid(),
            }
        }
    }

    /// What `first_occupied` finds lies among the numbers it was given, holds an
    /// entry, and has only empty slots before it; when it finds nothing, all of
    /// them are empty.
    pub proof fn lemma_first_occupied(self, from: u16, steps: int)
        requires
            0 <= steps < 65536,
        ensures
            match self.first_occupied(from, steps) {
                Some(found) => exists|j: int|
                    {
                        &&& 0 <= j < steps
                        &&& found == #[trigger] spec_seq_add(from, j)
                        &&& self.entry_of(found) is Some
                    },
                None => forall|j: int|
                    0 <= j < steps ==> self.entry_of(#[trigger] spec_seq_add(from, j)) is None,
            },
        decreases steps,
    {
        if steps <= 0 {
        } else if self.entry_of(from) is Some {
            assert(from == spec_seq_add(from, 0));
        } else {
            let after = spec_seq_add(from, 1);
            self.lemma_first_occupied(after, steps - 1);
            match self.first_occupied(after, steps - 1) {
                Some(found) => {
                    let j = choose|j: int|
                        0 <= j < steps - 1 && found == #[trigger] spec_seq_add(after, j);
                    lemma_walk_from_next(from, from, j);
                    assert(found == spec_seq_add(from, j + 1));
                },
                None => {
                    assert forall|j: int| 0 <= j < steps implies self.entry_of(
                        #[trigger] spec_seq_add(from, j),
                    ) is None by {
                        if j == 0 {
                            assert(from == spec_seq_add(from, 0));
                        } else {
                            lemma_walk_from_next(from, from, j - 1);
                            assert(spec_seq_add(from, j) == spec_seq_add(after, j - 1));
                        }
                    }
                },
            }
        }
    }

    /// The entry that follows the oldest lies strictly closer to the newest
    /// than the oldest does.
    pub proof fn lemma_next_is_closer(self)
        ensures
            self.next_after_oldest() matches Some(next) ==> {
                &&& self.entry_of(next) is Some
                &&& 0 <= spec_seq_gap(next, self.newest) < spec_seq_gap(self.oldest, self.newest)
            },
    {
        let gap = spec_seq_gap(self.oldest, self.newest);
        let after = spec_seq_add(self.oldest, 1);
        self.lemma_first_occupied(after, gap);
        match self.next_after_oldest() {
            Some(next) => {
                let j = choose|j: int| 0 <= j < gap && next == #[trigger] spec_seq_add(after, j);
                lemma_walk_from_next(self.oldest, self.newest, j);
            },
            None => {},
        }
    }
}

/// The mathematical content of an interpolation pair. The blend factor is the
/// fraction `alpha_numerator / alpha_denominator`.
pub struct PairModel<T> {
    pub from: Option<T>,
    pub to: Option<T>,
    pub alpha_numerator: int,
    pub alpha_denominator: int,
    pub extrapolation_us: int,
    pub is_valid: bool,
}

/// The time between two arrivals over which a blend runs: at least one
/// microsecond.
pub open spec fn blend_span(from_arrival_us: int, to_arrival_us: int) -> int {
    if to_arrival_us - from_arrival_us < 1 {
        1
    } else {
        to_arrival_us - from_arrival_us
    }
}

/// The time elapsed since the arrival of `from`, held between zero and the span
/// of the blend.
pub open spec fn blend_elapsed(target_us: int, from_arrival_us: int, to_arrival_us: int) -> int {
    let span = blend_span(from_arrival_us, to_arrival_us);
    if target_us - from_arrival_us < 0 {
        0
    } else if target_us - from_arrival_us > span {
        span
    } else {
        target_us - from_arrival_us
    }
}

/// The time by which `target_us` lies beyond the arrival of `to`; zero when it
/// does not.
pub open spec fn extrapolation(target_us: int, to_arrival_us: int) -> int {
    if target_us - to_arrival_us > 0 {
        target_us - to_arrival_us
    } else {
        0
    }
}

impl<T> PairModel<T> {
    /// No answer.
    pub open spec fn invalid() -> Self {
        PairModel {
            from: None,
            to: None,
            alpha_numerator: 0,
            alpha_denominator: 1,
            extrapolation_us: 0,
            is_valid: false,
        }
    }

    /// One snapshot alone, to extrapolate from.
    pub open spec fn single(value: T) -> Self {
        PairModel {
            from: Some(value),
            to: None,
            alpha_numerator: 0,
            alpha_denominator: 1,
            extrapolation_us: 0,
            is_valid: true,
        }
    }

    /// Two snapshots that bracket `target_us`, with the blend between them.
    pub open spec fn between(target_us: int, from: BufferEntry<T>, to: BufferEntry<T>) -> Self {
        PairModel {
            from: Some(from.value),
            to: Some(to.value),
            alpha_numerator: blend_elapsed(
                target_us,
                from.arrival_timestamp_us as int,
                to.arrival_timestamp_us as int,
            ),
            alpha_denominator: blend_span(
                from.arrival_timestamp_us as int,
                to.arrival_timestamp_us as int,
            ),
            extrapolation_us: extrapolation(target_us, to.arrival_timestamp_us as int),
            is_valid: true,
        }
    }
}

/// The blend factor of a pair lies between zero and one, and its extrapolation
/// is not negative, whatever the target time and the two arrival times are.
pub proof fn lemma_blend_within_bounds(target_us: int, from_arrival_us: int, to_arrival_us: int)
    ensures
        1 <= blend_span(from_arrival_us, to_arrival_us),
        0 <= blend_elapsed(target_us, from_arrival_us, to_arrival_us) <= blend_span(
            from_arrival_us,
            to_arrival_us,
        ),
        0 <= extrapolation(target_us, to_arrival_us),
{
}

/// Filling or clearing one slot changes the number of occupied slots by what
/// that slot gains or loses.
pub proof fn lemma_occupied_update<T>(
    slots: Seq<Option<BufferEntry<T>>>,
    i: int,
    entry: Option<BufferEntry<T>>,
)
    requires
        0 <= i < slots.len(),
    ensures
        occupied(slots.update(i, entry)) + (if slots[i] is Some {
            1nat
        } else {
            0nat
        }) == occupied(slots) + (if entry is Some {
            1nat
        } else {
            0nat
        }),
    decreases slots.len(),
{
    let updated = slots.update(i, entry);
    if i == slots.len() - 1 {
        assert(updated.drop_last() =~= slots.drop_last());
    } else {
        assert(updated.drop_last() =~= slots.drop_last().update(i, entry));
        lemma_occupied_update(slots.drop_last(), i, entry);
    }
}

/// No more slots are occupied than there are, and an occupied slot makes the
/// number positive.
pub proof fn lemma_occupied_bounds<T>(slots: Seq<Option<BufferEntry<T>>>)
    ensures
        occupied(slots) <= slots.len(),
        occupied(slots) == 0 <==> forall|i: int| 0 <= i < slots.len() ==> slots[i] is None,
    decreases slots.len(),
{
    if slots.len() > 0 {
        lemma_occupied_bounds(slots.drop_last());
        let front = slots.drop_last();
        if occupied(slots) == 0 {
            assert forall|i: int| 0 <= i < slots.len() implies slots[i] is None by {
                if i < front.len() {
                    assert(front[i] is None);
                }
            }
        }
        if forall|i: int| 0 <= i < slots.len() ==> slots[i] is None {
            assert forall|i: int| 0 <= i < front.len() implies front[i] is None by {
                assert(slots[i] is None);
            }
        }
    }
}

/// Two snapshots that bracket a point in time, with the blend between them.
///
/// The blend factor is the fraction `alpha_numerator / alpha_denominator`; the
/// extrapolation is counted in microseconds.
pub struct InterpolationPair<'a, T> {
    pub from: Option<&'a T>,
    pub to: Option<&'a T>,
    pub alpha_numerator: u64,
    pub alpha_denominator: u64,
    pub extrapolation_us: u64,
    pub is_valid: bool,
}

impl<'a, T> View for InterpolationPair<'a, T> {
    type V = PairModel<T>;

    open spec fn view(&self) -> PairModel<T> {
        PairModel {
            from: match self.from {
                Some(value) => Some(*value),
                None => None,
            },
            to: match self.to {
                Some(value) => Some(*value),
                None => None,
            },
            alpha_numerator: self.alpha_numerator as int,
            alpha_denominator: self.alpha_denominator as int,
            extrapolation_us: self.extrapolation_us as int,
            is_valid: self.is_valid,
        }
    }
}

/// The entry behind a reference, if there is one.
pub open spec fn entry_behind<T>(entry: Option<&BufferEntry<T>>) -> Option<BufferEntry<T>> {
    match entry {
        Some(entry) => Some(*entry),
        None => None,
    }
}

/// In a sequence with exactly one occupied slot, two occupied slots are the same.
pub proof fn lemma_sole_slot<T>(slots: Seq<Option<BufferEntry<T>>>, i: int, j: int)
    requires
        occupied(slots) == 1,
        0 <= i < slots.len(),
        0 <= j < slots.len(),
        slots[i] is Some,
        slots[j] is Some,
    ensures
        i == j,
{
    lemma_occupied_update(slots, i, None);
    lemma_occupied_bounds(slots.update(i, None));
    if i != j {
        assert(slots.update(i, None)[j] is Some);
    }
}

/// A buffer with exactly one entry answers with that entry alone, at any
/// time: the answer is valid, its `from` is the entry's value, and it has no `to`.
/// Catching up leaves such a buffer as it is.
pub proof fn lemma_single_entry_answers<T>(ring: RingModel<T>, target_us: int, slot: int)
    requires
        ring.wf(),
        ring.count == 1,
        0 <= slot < 128,
        ring.slots[slot] is Some,
    ensures
        ring.caught_up(target_us) == ring,
        ring.bracket(target_us) == PairModel::single(ring.slots[slot].unwrap().value),
        ring.bracket(target_us).is_valid,
        ring.bracket(target_us).to is None,
{
    let chosen = choose|i: int| 0 <= i < 128 && (#[trigger] ring.slots[i]) is Some;
    lemma_sole_slot(ring.slots, slot, chosen);
}

/// Every answer has a blend factor between zero and one and an extrapolation
/// that is not negative, and it is valid exactly when it has a `from`.
pub proof fn lemma_answer_within_bounds<T>(ring: RingModel<T>, target_us: int)
    ensures
        1 <= ring.bracket(target_us).alpha_denominator,
        0 <= ring.bracket(target_us).alpha_numerator <= ring.bracket(target_us).alpha_denominator,
        0 <= ring.bracket(target_us).extrapolation_us,
        ring.bracket(target_us).is_valid <==> ring.bracket(target_us).from is Some,
        ring.bracket(target_us).to is Some ==> ring.bracket(target_us).from is Some,
{
}

/// Where the scan for a later arrival stops, an entry stands that arrived after
/// the target, and no such entry stands at any place that the scan passed.
pub proof fn lemma_first_later<T>(ring: RingModel<T>, target_us: int, k: int)
    requires
        0 <= k <= ring.walk_len(ring.oldest),
    ensures
        k <= ring.first_later(target_us, k) <= ring.walk_len(ring.oldest),
        ring.first_later(target_us, k) < ring.walk_len(ring.oldest) ==> {
            &&& ring.entry_at(ring.first_later(target_us, k)) matches Some(later)
            &&& later.arrival_timestamp_us > target_us
        },
        forall|j: int|
            k <= j < ring.first_later(target_us, k) ==> (#[trigger] ring.entry_at(j) matches Some(
                passed,
            ) ==> passed.arrival_timestamp_us <= target_us),
    decreases ring.walk_len(ring.oldest) - k,
{
    if k < ring.walk_len(ring.oldest) {
        if !(ring.entry_at(k) is Some && ring.entry_at(k).unwrap().arrival_timestamp_us
            > target_us) {
            lemma_first_later(ring, target_us, k + 1);
        }
    }
}

/// Where no entry among the first `end` places of the walk arrived after the
/// target, the last of them did not either.
pub proof fn lemma_last_entry_before<T>(ring: RingModel<T>, target_us: int, end: int)
    requires
        forall|j: int|
            0 <= j < end ==> (#[trigger] ring.entry_at(j) matches Some(passed)
                ==> passed.arrival_timestamp_us <= target_us),
    ensures
        ring.last_entry_before(end) matches Some(last) ==> last.arrival_timestamp_us <= target_us,
    decreases end,
{
    if end > 0 {
        if ring.entry_at(end - 1) is None {
            lemma_last_entry_before(ring, target_us, end - 1);
        }
    }
}

/// The two snapshots of an answer bracket the target: `from` arrived at the
/// target time or before it, `to` after it. So the blend factor of a buffer
/// with two entries or more is below one, and there is never anything to
/// extrapolate beyond `to`.
pub proof fn lemma_answer_brackets_target<T>(ring: RingModel<T>, target_us: int)
    ensures
        ring.last_entry_before(ring.first_later(target_us, 0)) matches Some(from)
            ==> from.arrival_timestamp_us <= target_us,
        ring.first_later(target_us, 0) < ring.walk_len(ring.oldest) ==> {
            &&& ring.entry_at(ring.first_later(target_us, 0)) matches Some(to)
            &&& to.arrival_timestamp_us > target_us
        },
        ring.bracket(target_us).extrapolation_us == 0,
        ring.bracket(target_us).alpha_numerator < ring.bracket(target_us).alpha_denominator,
{
    lemma_walk_meets(ring.oldest, ring.newest, 0);
    lemma_first_later(ring, target_us, 0);
    lemma_last_entry_before(ring, target_us, ring.first_later(target_us, 0));
}

/// A ring buffer of snapshots of type `T`, one slot per sequence number modulo
/// the capacity.
pub struct SequenceRingBuffer<T> {
    buffer: Vec<Option<BufferEntry<T>>>,
    oldest_sequence_id: u16,
    newest_sequence_id: u16,
    count: usize,
    buffer_delay_us: i64,
}

impl<T> View for SequenceRingBuffer<T> {
    type V = RingModel<T>;

    closed spec fn view(&self) -> RingModel<T> {
        RingModel {
            slots: self.buffer@,
            oldest: self.oldest_sequence_id,
            newest: self.newest_sequence_id,
            count: self.count as nat,
            delay_us: self.buffer_delay_us as int,
        }
    }
}

/// The slot that a sequence number selects.
fn slot_index(seq: u16) -> (index: usize)
    ensures
        index == slot_of(seq),
        index < 128,
{
    assert(seq & 127 == seq % 128) by (bit_vector);
    (seq & SLOT_MASK) as usize
}

impl<T> SequenceRingBuffer<T> {
    /// The buffer is well formed when its content is.
    pub open spec fn wf(&self) -> bool {
        self@.wf()
    }

    /// An empty buffer. Its walks start and end at 65535 until the first
    /// insert, and its playout delay is unset.
    pub fn new() -> (ring: Self)
        ensures
            ring.wf(),
            ring@.slots == Seq::new(128, |i: int| None::<BufferEntry<T>>),
            ring@.count == 0,
            ring@.oldest == 65535,
            ring@.newest == 65535,
            ring@.delay_us == 0,
    {
        let mut buffer: Vec<Option<BufferEntry<T>>> = Vec::new();
        let mut filled: usize = 0;
        while filled < BUFFER_SIZE
            invariant
                filled <= 128,
                buffer@.len() == filled,
                forall|i: int| 0 <= i < filled ==> buffer@[i] is None,
            decreases 128 - filled,
        {
            buffer.push(None);
            filled += 1;
        }
        proof {
            lemma_occupied_bounds(buffer@);
            assert(buffer@ =~= Seq::new(128, |i: int| None::<BufferEntry<T>>));
        }
        SequenceRingBuffer {
            buffer,
            oldest_sequence_id: 65535,
            newest_sequence_id: 65535,
            count: 0,
            buffer_delay_us: 0,
        }
    }

    /// Stores a snapshot under its sequence id and returns whether it did.
    ///
    /// Nothing is stored, and nothing changes, when the id is no sequence
    /// number or lies outside the window around the newest entry.
    pub fn insert(&mut self, sequence_id: i64, arrival_timestamp_us: i64, value: T) -> (stored: bool)
        requires
            old(self).wf(),
        ensures
            final(self).wf(),
            stored == old(self)@.accepts(sequence_id),
            stored ==> final(self)@ == old(self)@.inserted(
                sequence_id as u16,
                arrival_timestamp_us,
                value,
            ),
            !stored ==> final(self)@ == old(self)@,
    {
        let seq_id = match u16_from_i64(sequence_id) {
            Some(seq_id) => seq_id,
            None => {
                return false;
            },
        };
        let window = seq_diff(self.newest_sequence_id, seq_id);
        if self.count > 0 && (window > BUFFER_SIZE as i32 || window < -(BUFFER_SIZE as i32)) {
            return false;
        }
        let index = slot_index(seq_id);
        let was_empty = self.buffer[index].is_none();
        let extends_front = self.count == 0 || seq_is_newer(seq_id, self.newest_sequence_id);

        let mut prev_arrival_timestamp_us: Option<i64> = None;
        if self.count > 0 && extends_front {
            let prev_index = slot_index(self.newest_sequence_id);
            match &self.buffer[prev_index] {
                Some(prev_entry) => {
                    prev_arrival_timestamp_us = Some(prev_entry.arrival_timestamp_us);
                },
                None => {},
            }
        }
        proof {
            lemma_occupied_update(
                self.buffer@,
                index as int,
                Some(BufferEntry { arrival_timestamp_us, value }),
            );
            lemma_occupied_bounds(self.buffer@);
        }
        self.buffer[index] = Some(BufferEntry { arrival_timestamp_us, value });
        if was_empty {
            self.count += 1;
        }
        if self.count == 1 {
            self.oldest_sequence_id = seq_id;
            self.newest_sequence_id = seq_id;
            assert(self@ =~= old(self)@.inserted(seq_id, arrival_timestamp_us, value));
            return true;
        }
        if extends_front {
            match prev_arrival_timestamp_us {
                Some(prev_arrival_timestamp_us) => {
                    let delta_us: i128 = arrival_timestamp_us as i128
                        - prev_arrival_timestamp_us as i128;
                    if delta_us > 0 {
                        self.buffer_delay_us = if delta_us < MIN_DELAY_US as i128 {
                            MIN_DELAY_US
                        } else if delta_us > MAX_DELAY_US as i128 {
                            MAX_DELAY_US
                        } else {
                            delta_us as i64
                        };
                    }
                },
                None => {},
            }
            self.newest_sequence_id = seq_id;
        } else if seq_is_newer(self.oldest_sequence_id, seq_id) {
            self.oldest_sequence_id = seq_id;
        }
        assert(self@ =~= old(self)@.inserted(seq_id, arrival_timestamp_us, value));
        true
    }

    /// Removes every snapshot that the walk from the oldest sequence number
    /// reaches under a number not newer than `sequence_id`, and returns how
    /// many it removed. An id that is no sequence number removes nothing.
    pub fn prune_up_to(&mut self, sequence_id: i64) -> (removed: i64)
        requires
            old(self).wf(),
        ensures
            final(self).wf(),
            0 <= sequence_id <= 65535 ==> final(self)@ == old(self)@.pruned(sequence_id as u16),
            !(0 <= sequence_id <= 65535) ==> final(self)@ == old(self)@,
            removed == old(self)@.count - final(self)@.count,
    {
        let prune_seq_id = match u16_from_i64(sequence_id) {
            Some(prune_seq_id) => prune_seq_id,
            None => {
                return 0;
            },
        };
        let mut pruned: i64 = 0;
        let mut current = self.oldest_sequence_id;
        let ghost before = self@;
        let ghost mut k: int = 0;
        proof {
            lemma_walk_step(before.oldest, 0);
            lemma_walk_meets(before.oldest, before.newest, 0);
            lemma_occupied_bounds(self.buffer@);
        }
        loop
            invariant_except_break
                0 <= k < before.walk_len(before.oldest),
                current == spec_seq_add(before.oldest, k),
            invariant
                before == old(self)@,
                before.wf(),
                self@.wf(),
                self@.oldest == before.oldest,
                self@.newest == before.newest,
                self@.delay_us == before.delay_us,
                0 <= k <= 129,
                pruned == before.count - self@.count,
                0 <= pruned <= 128,
                forall|i: int|
                    0 <= i < 128 ==> self@.slots[i] == if before.prunes_within(
                        prune_seq_id,
                        i,
                        k,
                    ) {
                        None
                    } else {
                        before.slots[i]
                    },
            ensures
                k == before.walk_len(before.oldest),
            decreases before.walk_len(before.oldest) - k,
        {
            let index = slot_index(current);
            proof {
                lemma_occupied_bounds(before.slots);
                lemma_occupied_bounds(self.buffer@);
            }
            if self.buffer[index].is_some() && !seq_is_newer(current, prune_seq_id) {
                proof {
                    lemma_occupied_update(self.buffer@, index as int, None);
                }
                self.buffer[index] = None;
                self.count -= 1;
                pruned += 1;
            }
            proof {
                assert forall|i: int| 0 <= i < 128 implies self@.slots[i] == if before.prunes_within(
                    prune_seq_id,
                    i,
                    k + 1,
                ) {
                    None
                } else {
                    before.slots[i]
                } by {
                    let reached = spec_seq_add(before.oldest, k);
                    if before.prunes_within(prune_seq_id, i, k) {
                        let w = choose|w: int|
                            0 <= w < k && slot_of(#[trigger] spec_seq_add(before.oldest, w)) == i
                                && !spec_seq_is_newer(
                                spec_seq_add(before.oldest, w),
                                prune_seq_id,
                            );
                        assert(0 <= w < k + 1 && slot_of(spec_seq_add(before.oldest, w)) == i);
                    } else if i == index && !spec_seq_is_newer(reached, prune_seq_id) {
                        assert(0 <= k < k + 1 && slot_of(reached) == i);
                    } else {
                        if before.prunes_within(prune_seq_id, i, k + 1) {
                            let w = choose|w: int|
                                0 <= w < k + 1 && slot_of(
                                    #[trigger] spec_seq_add(before.oldest, w),
                                ) == i && !spec_seq_is_newer(
                                    spec_seq_add(before.oldest, w),
                                    prune_seq_id,
                                );
                            if w < k {
                                assert(before.prunes_within(prune_seq_id, i, k));
                            }
                        }
                    }
                }
                lemma_walk_meets(before.oldest, before.newest, k);
                lemma_walk_step(before.oldest, k);
            }
            if current == self.newest_sequence_id {
                proof {
                    k = k + 1;
                }
                break ;
            }
            current = seq_next(current);
            proof {
                k = k + 1;
                lemma_walk_step(before.oldest, k);
            }
            if seq_diff(current, self.oldest_sequence_id) > BUFFER_SIZE as i32 {
                break ;
            }
        }
        proof {
            let after = before.pruned(prune_seq_id);
            assert forall|i: int| 0 <= i < 128 implies self@.slots[i] == after.slots[i] by {}
            assert(self@.slots =~= after.slots);
            assert(self@ =~= after);
        }
        pruned
    }

    /// The snapshots that a walk from `sequence_id` to the newest sequence
    /// number finds, in order. The walk skips empty slots and gives up after 128
    /// steps. An id that is no sequence number finds nothing.
    pub fn get_starting_at(&self, sequence_id: i64) -> (values: Vec<&T>)
        requires
            self.wf(),
        ensures
            0 <= sequence_id <= 65535 ==> values@.map_values(|value: &T| *value)
                == self@.values_from(sequence_id as u16),
            !(0 <= sequence_id <= 65535) ==> values@.len() == 0,
    {
        let mut result: Vec<&T> = Vec::new();
        let start_seq_id = match u16_from_i64(sequence_id) {
            Some(start_seq_id) => start_seq_id,
            None => {
                return result;
            },
        };
        let mut current = start_seq_id;
        let ghost mut k: int = 0;
        proof {
            lemma_walk_step(start_seq_id, 0);
            lemma_walk_meets(start_seq_id, self@.newest, 0);
            assert(result@.map_values(|value: &T| *value) =~= self@.values_within(start_seq_id, 0));
        }
        loop
            invariant_except_break
                0 <= k < self@.walk_len(start_seq_id),
                current == spec_seq_add(start_seq_id, k),
            invariant
                self.wf(),
                0 <= k <= 129,
                result@.map_values(|value: &T| *value) == self@.values_within(start_seq_id, k),
            ensures
                k == self@.walk_len(start_seq_id),
            decreases self@.walk_len(start_seq_id) - k,
        {
            let index = slot_index(current);
            let ghost collected = result@;
            match &self.buffer[index] {
                Some(entry) => {
                    result.push(&entry.value);
                    assert(result@.map_values(|value: &T| *value) =~= collected.map_values(
                        |value: &T| *value,
                    ).push(entry.value));
                },
                None => {},
            }
            proof {
                lemma_walk_meets(start_seq_id, self@.newest, k);
                lemma_walk_step(start_seq_id, k);
            }
            if current == self.newest_sequence_id {
                proof {
                    k = k + 1;
                }
                break ;
            }
            current = seq_next(current);
            proof {
                k = k + 1;
                lemma_walk_step(start_seq_id, k);
            }
            if seq_diff(current, start_seq_id) > BUFFER_SIZE as i32 {
                break ;
            }
        }
        result
    }

    /// Whether an insert would be accepted and would find the front moving
    /// backwards in time. The insert goes through all the same; the answer is
    /// for a caller that wants to report it.
    pub fn timestamp_regression(&self, sequence_id: i64, arrival_timestamp_us: i64) -> (regresses:
        bool)
        requires
            self.wf(),
        ensures
            regresses == (self@.accepts(sequence_id) && self@.regresses(
                sequence_id as u16,
                arrival_timestamp_us,
            )),
    {
        let seq_id = match u16_from_i64(sequence_id) {
            Some(seq_id) => seq_id,
            None => {
                return false;
            },
        };
        proof {
            lemma_occupied_bounds(self.buffer@);
        }
        let window = seq_diff(self.newest_sequence_id, seq_id);
        if self.count == 0 || window > BUFFER_SIZE as i32 || window < -(BUFFER_SIZE as i32) {
            return false;
        }
        if !seq_is_newer(seq_id, self.newest_sequence_id) {
            return false;
        }
        let index = slot_index(seq_id);
        if self.count == 1 && self.buffer[index].is_some() {
            return false;
        }
        proof {
            lemma_occupied_bounds(self.buffer@);
        }
        let prev_index = slot_index(self.newest_sequence_id);
        match &self.buffer[prev_index] {
            Some(prev_entry) => {
                let prev: i64 = prev_entry.arrival_timestamp_us;
                arrival_timestamp_us <= prev && (arrival_timestamp_us != -1 || prev != -1)
            },
            None => false,
        }
    }

    fn next_occupied(&self) -> (next: Option<(u16, i64)>)
        requires
            self.wf(),
        ensures
            match self@.next_after_oldest() {
                Some(found) => next == Some(
                    (found, self@.entry_of(found).unwrap().arrival_timestamp_us),
                ),
                None => next is None,
            },
    {
        let mut candidate = seq_next(self.oldest_sequence_id);
        let end = seq_next(self.newest_sequence_id);
        let ghost gap = spec_seq_gap(self@.oldest, self@.newest);
        let ghost mut j: int = 0;
        proof {
            lemma_walk_from_next(self@.oldest, self@.newest, 0);
            lemma_walk_step(self@.oldest, 0);
        }
        loop
            invariant
                self.wf(),
                gap == spec_seq_gap(self@.oldest, self@.newest),
                end == spec_seq_add(self@.newest, 1),
                0 <= j <= gap < 65536,
                candidate == spec_seq_add(self@.oldest, j + 1),
                self@.next_after_oldest() == self@.first_occupied(candidate, gap - j),
            decreases gap - j,
        {
            proof {
                lemma_walk_from_next(self@.oldest, self@.newest, j);
            }
            if candidate == end {
                return None;
            }
            let index = slot_index(candidate);
            match &self.buffer[index] {
                Some(entry) => {
                    return Some((candidate, entry.arrival_timestamp_us));
                },
                None => {},
            }
            proof {
                lemma_walk_continues(self@.oldest, j + 1);
            }
            candidate = seq_next(candidate);
            proof {
                j = j + 1;
            }
        }
    }

    fn catch_up(&mut self, target_us: i128)
        requires
            old(self).wf(),
        ensures
            final(self).wf(),
            final(self)@ == old(self)@.caught_up(target_us as int),
    {
        loop
            invariant
                self.wf(),
                self@.caught_up(target_us as int) == old(self)@.caught_up(target_us as int),
            ensures
                self.wf(),
                self@ == old(self)@.caught_up(target_us as int),
            decreases spec_seq_gap(self@.oldest, self@.newest),
        {
            if self.count < 3 {
                break ;
            }
            let (next_seq, next_arrival_timestamp_us) = match self.next_occupied() {
                Some(next_entry) => next_entry,
                None => {
                    break ;
                },
            };
            if target_us > next_arrival_timestamp_us as i128 {
                let ghost before = self@;
                proof {
                    before.lemma_next_is_closer();
                }
                let old_index = slot_index(self.oldest_sequence_id);
                if self.buffer[old_index].is_some() {
                    proof {
                        lemma_occupied_update(self.buffer@, old_index as int, None);
                        lemma_occupied_bounds(self.buffer@);
                    }
                    self.buffer[old_index] = None;
                    self.count -= 1;
                } else {
                    assert(self.buffer@ =~= self.buffer@.update(old_index as int, None));
                }
                self.oldest_sequence_id = next_seq;
                assert(self@ =~= before.without_oldest(next_seq));
                continue ;
            }
            break ;
        }
    }

    fn find_sole_entry(&self) -> (only: Option<&BufferEntry<T>>)
        requires
            self.wf(),
            self@.count == 1,
        ensures
            only is Some,
            entry_behind(only) == self@.sole_entry(),
    {
        proof {
            lemma_occupied_bounds(self.buffer@);
        }
        let ghost chosen = choose|i: int| 0 <= i < 128 && (#[trigger] self@.slots[i]) is Some;
        let mut index: usize = slot_index(self.oldest_sequence_id);
        if self.buffer[index].is_none() {
            index = 0;
            while index < 127 && self.buffer[index].is_none()
                invariant
                    self.wf(),
                    0 <= index <= 127,
                    forall|i: int| 0 <= i < index ==> self@.slots[i] is None,
                decreases 127 - index,
            {
                index += 1;
            }
        }
        proof {
            assert(self@.slots[chosen] is Some);
            if self@.slots[index as int] is Some {
                lemma_sole_slot(self@.slots, index as int, chosen);
            }
        }
        self.buffer[index].as_ref()
    }

    fn scan(&self, target_us: i128) -> (found: (
        Option<&BufferEntry<T>>,
        Option<&BufferEntry<T>>,
    ))
        requires
            self.wf(),
        ensures
            entry_behind(found.0) == self@.last_entry_before(
                self@.first_later(target_us as int, 0),
            ),
            entry_behind(found.1) == if self@.first_later(target_us as int, 0) < self@.walk_len(
                self@.oldest,
            ) {
                self@.entry_at(self@.first_later(target_us as int, 0))
            } else {
                None
            },
    {
        let mut current = self.oldest_sequence_id;
        let mut from: Option<&BufferEntry<T>> = None;
        let mut to: Option<&BufferEntry<T>> = None;
        let ghost target = target_us as int;
        let ghost walk = self@.walk_len(self@.oldest);
        let ghost stop = self@.first_later(target, 0);
        let ghost mut k: int = 0;
        proof {
            lemma_walk_step(self@.oldest, 0);
            lemma_walk_meets(self@.oldest, self@.newest, 0);
        }
        loop
            invariant_except_break
                0 <= k < walk,
                current == spec_seq_add(self@.oldest, k),
                to is None,
                stop == self@.first_later(target, k),
                entry_behind(from) == self@.last_entry_before(k),
            invariant
                self.wf(),
                walk == self@.walk_len(self@.oldest),
                target == target_us as int,
                stop == self@.first_later(target, 0),
                0 <= k <= 129,
            ensures
                entry_behind(from) == self@.last_entry_before(stop),
                entry_behind(to) == if stop < walk {
                    self@.entry_at(stop)
                } else {
                    None
                },
            decreases walk - k,
        {
            let index = slot_index(current);
            assert(self@.entry_at(k) == self.buffer@[index as int]);
            match &self.buffer[index] {
                Some(entry) => {
                    if entry.arrival_timestamp_us as i128 <= target_us {
                        from = Some(entry);
                    } else {
                        to = Some(entry);
                        assert(self@.first_later(target, k) == k);
                        break ;
                    }
                },
                None => {},
            }
            proof {
                assert(self@.first_later(target, k) == self@.first_later(target, k + 1));
                assert(entry_behind(from) == self@.last_entry_before(k + 1));
                lemma_walk_meets(self@.oldest, self@.newest, k);
                lemma_walk_step(self@.oldest, k);
            }
            if current == self.newest_sequence_id {
                proof {
                    k = k + 1;
                    assert(self@.first_later(target, k) == walk);
                }
                break ;
            }
            current = seq_next(current);
            proof {
                k = k + 1;
                lemma_walk_step(self@.oldest, k);
            }
            if seq_diff(current, self.oldest_sequence_id) > BUFFER_SIZE as i32 {
                assert(self@.first_later(target, k) == walk);
                break ;
            }
        }
        (from, to)
    }

    fn blend<'a>(target_us: i128, from: &'a BufferEntry<T>, to: &'a BufferEntry<T>) -> (pair:
        InterpolationPair<'a, T>)
        requires
            i64::MIN - 150_000 <= target_us <= i64::MAX,
        ensures
            pair@ == PairModel::between(target_us as int, *from, *to),
    {
        let raw_span: i128 = to.arrival_timestamp_us as i128 - from.arrival_timestamp_us as i128;
        let span: i128 = if raw_span < 1 {
            1
        } else {
            raw_span
        };
        let raw_elapsed: i128 = target_us - from.arrival_timestamp_us as i128;
        let elapsed: i128 = if raw_elapsed < 0 {
            0
        } else if raw_elapsed > span {
            span
        } else {
            raw_elapsed
        };
        let raw_beyond: i128 = target_us - to.arrival_timestamp_us as i128;
        let beyond: i128 = if raw_beyond > 0 {
            raw_beyond
        } else {
            0
        };
        InterpolationPair {
            from: Some(&from.value),
            to: Some(&to.value),
            alpha_numerator: elapsed as u64,
            alpha_denominator: span as u64,
            extrapolation_us: beyond as u64,
            is_valid: true,
        }
    }

    fn bracket(&self, target_us: i128) -> (pair: InterpolationPair<'_, T>)
        requires
            self.wf(),
            i64::MIN - 150_000 <= target_us <= i64::MAX,
        ensures
            pair@ == self@.bracket(target_us as int),
    {
        let invalid = InterpolationPair {
            from: None,
            to: None,
            alpha_numerator: 0,
            alpha_denominator: 1,
            extrapolation_us: 0,
            is_valid: false,
        };
        if self.count == 0 {
            return invalid;
        }
        if self.count == 1 {
            return match self.find_sole_entry() {
                Some(entry) => InterpolationPair {
                    from: Some(&entry.value),
                    to: None,
                    alpha_numerator: 0,
                    alpha_denominator: 1,
                    extrapolation_us: 0,
                    is_valid: true,
                },
                None => invalid,
            };
        }
        match self.scan(target_us) {
            (Some(from), Some(to)) => Self::blend(target_us, from, to),
            (Some(from), None) => InterpolationPair {
                from: Some(&from.value),
                to: None,
                alpha_numerator: 0,
                alpha_denominator: 1,
                extrapolation_us: 0,
                is_valid: true,
            },
            _ => invalid,
        }
    }

    /// The two snapshots to blend at the time `now_us`, for the moment one
    /// playout delay earlier.
    ///
    /// The buffer first catches up with that moment, discarding entries that
    /// it has left behind as long as three or more remain. The answer is then
    /// read from what is left.
    pub fn get_interpolation_pair(&mut self, now_us: i64) -> (pair: InterpolationPair<'_, T>)
        requires
            old(self).wf(),
        ensures
            final(self).wf(),
            final(self)@ == old(self)@.caught_up(now_us - old(self)@.delay_us),
            pair@ == final(self)@.bracket(now_us - old(self)@.delay_us),
    {
        let target_us: i128 = now_us as i128 - self.buffer_delay_us as i128;
        self.catch_up(target_us);
        self.bracket(target_us)
    }

    /// Number of stored snapshots.
    pub fn size(&self) -> (count: i64)
        requires
            self.wf(),
        ensures
            count == self@.count,
            0 <= count <= 128,
    {
        proof {
            lemma_occupied_bounds(self.buffer@);
        }
        self.count as i64
    }

    /// The sequence number at which walks over the buffer start.
    pub fn oldest_sequence_id(&self) -> (sequence_id: i64)
        ensures
            sequence_id == self@.oldest,
    {
        self.oldest_sequence_id as i64
    }

    /// The sequence number at which walks over the buffer end.
    pub fn newest_sequence_id(&self) -> (sequence_id: i64)
        ensures
            sequence_id == self@.newest,
    {
        self.newest_sequence_id as i64
    }

    /// The playout delay in microseconds; zero until two arrivals have set it.
    pub fn buffer_delay_us(&self) -> (delay_us: i64)
        ensures
            delay_us == self@.delay_us,
    {
        self.buffer_delay_us
    }
}

} // verus!
