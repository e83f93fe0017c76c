//! A bounded queue of diagnostic messages.
//!
//! The transport reports from threads of its own. What it says is queued here,
//! oldest first, and the tick prints a few messages at a time, so that a storm
//! of reports can neither exhaust memory nor stall a tick.

use std::collections::VecDeque;
use vstd::prelude::*;

verus! {

broadcast use vstd::std_specs::vecdeque::axiom_spec_len;

/// Most messages that the queue holds.
pub const DEBUG_QUEUE_LIMIT: usize = 1000;

/// Most messages that one tick takes out.
pub const DEBUG_MESSAGES_PER_TICK: usize = 10;

/// The messages after one more was queued: when that makes more than the
/// limit, the oldest is dropped.
pub open spec fn spec_pushed(messages: Seq<String>, message: String) -> Seq<String> {
    if messages.len() + 1 > 1000 {
        messages.push(message).drop_first()
    } else {
        messages.push(message)
    }
}

/// Number of messages that one tick takes out of `queued`.
pub open spec fn spec_quota(queued: nat) -> int {
    if queued < 10 {
        queued as int
    } else {
        10
    }
}

/// A queue of diagnostic messages, oldest first.
pub struct DebugQueue {
    messages: VecDeque<String>,
}

impl View for DebugQueue {
    type V = Seq<String>;

    closed spec fn view(&self) -> Seq<String> {
        self.messages@
    }
}

impl DebugQueue {
    /// The queue holds no more messages than its limit.
    pub open spec fn wf(&self) -> bool {
        self@.len() <= 1000
    }

    /// An empty queue.
    pub fn new() -> (queue: Self)
        ensures
            queue.wf(),
            queue@ == Seq::<String>::empty(),
    {
        DebugQueue { messages: VecDeque::new() }
    }

    /// Queues a message; when the queue is full, the oldest message gives way.
    pub fn push(&mut self, message: String)
        requires
            old(self).wf(),
        ensures
            final(self).wf(),
            final(self)@ == spec_pushed(old(self)@, message),
    {
        self.messages.push_back(message);
        if self.messages.len() > DEBUG_QUEUE_LIMIT {
            let _ = self.messages.pop_front();
        }
        assert(self@ =~= spec_pushed(old(self)@, message));
    }

    /// Takes out the oldest messages, ten at most, oldest first.
    pub fn drain_tick(&mut self) -> (drained: Vec<String>)
        ensures
            drained@ == old(self)@.take(spec_quota(old(self)@.len())),
            final(self)@ == old(self)@.skip(spec_quota(old(self)@.len())),
            old(self).wf() ==> final(self).wf(),
    {
        let mut drained: Vec<String> = Vec::new();
        let mut taken: usize = 0;
        while taken < DEBUG_MESSAGES_PER_TICK
            invariant
                0 <= taken <= 10,
                taken <= old(self)@.len(),
                drained@ == old(self)@.take(taken as int),
                self@ == old(self)@.skip(taken as int),
            ensures
                taken == spec_quota(old(self)@.len()),
                drained@ == old(self)@.take(taken as int),
                self@ == old(self)@.skip(taken as int),
            decreases 10 - taken,
        {
            match self.messages.pop_front() {
                Some(message) => {
                    drained.push(message);
                    taken += 1;
                    assert(drained@ =~= old(self)@.take(taken as int));
                    assert(self@ =~= old(self)@.skip(taken as int));
                },
                None => {
                    break ;
                },
            }
        }
        drained
    }

    /// Number of messages that wait.
    pub fn len(&self) -> (count: usize)
        ensures
            count == self@.len(),
    {
        self.messages.len()
    }
}

} // verus!
