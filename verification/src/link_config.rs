//! The knobs with which a server makes its own link worse, to try the game
//! against lag, loss, jitter, duplicates and reordering.
//!
//! Each knob is a number that is handed through to the transport. Only a
//! server turns them; under the role of a client every one of them is inert.

use vstd::prelude::*;

verus! {

/// A knob of the simulated link.
#[derive(Clone, Copy, Debug, PartialEq, Eq)]
pub enum LinkOption {
    FakePingLagSend,
    FakePingLagRecv,
    FakeLossSend,
    FakeLossRecv,
    FakeJitterSend,
    FakeJitterRecv,
    FakeDupSend,
    FakeDupRecv,
    FakeDupMsMax,
    FakeReorderSend,
    FakeReorderRecv,
    FakeReorderMs,
}

/// A host integer as the transport takes it: itself when it fits into 32 bits
/// without a sign, zero when it does not.
pub open spec fn spec_i64_to_u32(value: i64) -> u32 {
    if 0 <= value <= u32::MAX {
        value as u32
    } else {
        0
    }
}

/// A host integer as the transport takes it; zero when it does not fit.
pub fn i64_to_u32(value: i64) -> (narrow: u32)
    ensures
        narrow == spec_i64_to_u32(value),
{
    if 0 <= value && value <= u32::MAX as i64 {
        value as u32
    } else {
        0
    }
}

/// The settings of the simulated link, as the host last set them.
#[derive(Clone, Copy, Debug, PartialEq, Eq)]
pub struct LinkSimulation {
    fake_ping_lag_send: i64,
    fake_ping_lag_recv: i64,
    fake_loss_send: i64,
    fake_loss_recv: i64,
    fake_jitter_send: i64,
    fake_jitter_recv: i64,
    fake_dup_send: i64,
    fake_dup_recv: i64,
    fake_dup_ms_max: i64,
    fake_reorder_send: i64,
    fake_reorder_recv: i64,
    fake_reorder_ms: i64,
}

impl LinkSimulation {
    /// The setting of a knob.
    pub closed spec fn value(&self, option: LinkOption) -> i64 {
        match option {
            LinkOption::FakePingLagSend => self.fake_ping_lag_send,
            LinkOption::FakePingLagRecv => self.fake_ping_lag_recv,
            LinkOption::FakeLossSend => self.fake_loss_send,
            LinkOption::FakeLossRecv => self.fake_loss_recv,
            LinkOption::FakeJitterSend => self.fake_jitter_send,
            LinkOption::FakeJitterRecv => self.fake_jitter_recv,
            LinkOption::FakeDupSend => self.fake_dup_send,
            LinkOption::FakeDupRecv => self.fake_dup_recv,
            LinkOption::FakeDupMsMax => self.fake_dup_ms_max,
            LinkOption::FakeReorderSend => self.fake_reorder_send,
            LinkOption::FakeReorderRecv => self.fake_reorder_recv,
            LinkOption::FakeReorderMs => self.fake_reorder_ms,
        }
    }

    /// All knobs at zero.
    pub fn new() -> (settings: Self)
        ensures
            forall|option: LinkOption| settings.value(option) == 0,
    {
        LinkSimulation {
            fake_ping_lag_send: 0,
            fake_ping_lag_recv: 0,
            fake_loss_send: 0,
            fake_loss_recv: 0,
            fake_jitter_send: 0,
            fake_jitter_recv: 0,
            fake_dup_send: 0,
            fake_dup_recv: 0,
            fake_dup_ms_max: 0,
            fake_reorder_send: 0,
            fake_reorder_recv: 0,
            fake_reorder_ms: 0,
        }
    }

    /// The setting of a knob.
    pub fn get(&self, option: LinkOption) -> (value: i64)
        ensures
            value == self.value(option),
    {
        match option {
            LinkOption::FakePingLagSend => self.fake_ping_lag_send,
            LinkOption::FakePingLagRecv => self.fake_ping_lag_recv,
            LinkOption::FakeLossSend => self.fake_loss_send,
            LinkOption::FakeLossRecv => self.fake_loss_recv,
            LinkOption::FakeJitterSend => self.fake_jitter_send,
            LinkOption::FakeJitterRecv => self.fake_jitter_recv,
            LinkOption::FakeDupSend => self.fake_dup_send,
            LinkOption::FakeDupRecv => self.fake_dup_recv,
            LinkOption::FakeDupMsMax => self.fake_dup_ms_max,
            LinkOption::FakeReorderSend => self.fake_reorder_send,
            LinkOption::FakeReorderRecv => self.fake_reorder_recv,
            LinkOption::FakeReorderMs => self.fake_reorder_ms,
        }
    }

    /// Turns a knob, and returns the number to hand to the transport.
    ///
    /// Under the role of a client nothing is set and nothing is handed on.
    /// Under the role of the server the setting is kept as given, and the
    /// transport gets it narrowed to 32 bits.
    pub fn set(&mut self, is_server: bool, option: LinkOption, value: i64) -> (handed_on: Option<u32>)
        ensures
            !is_server ==> handed_on is None && *final(self) == *old(self),
            is_server ==> handed_on == Some(spec_i64_to_u32(value)),
            is_server ==> final(self).value(option) == value,
            is_server ==> forall|other: LinkOption|
                other != option ==> final(self).value(other) == old(self).value(other),
    {
        if !is_server {
            return None;
        }
        match option {
            LinkOption::FakePingLagSend => {
                self.fake_ping_lag_send = value;
            },
            LinkOption::FakePingLagRecv => {
                self.fake_ping_lag_recv = value;
            },
            LinkOption::FakeLossSend => {
                self.fake_loss_send = value;
            },
            LinkOption::FakeLossRecv => {
                self.fake_loss_recv = value;
            },
            LinkOption::FakeJitterSend => {
                self.fake_jitter_send = value;
            },
            LinkOption::FakeJitterRecv => {
                self.fake_jitter_recv = value;
            },
            LinkOption::FakeDupSend => {
                self.fake_dup_send = value;
            },
            LinkOption::FakeDupRecv => {
                self.fake_dup_recv = value;
            },
            LinkOption::FakeDupMsMax => {
                self.fake_dup_ms_max = value;
            },
            LinkOption::FakeReorderSend => {
                self.fake_reorder_send = value;
            },
            LinkOption::FakeReorderRecv => {
                self.fake_reorder_recv = value;
            },
            LinkOption::FakeReorderMs => {
                self.fake_reorder_ms = value;
            },
        }
        Some(i64_to_u32(value))
    }
}

} // verus!
