//! The record that survives a reset and tells the next boot where to jump.

use vstd::prelude::*;

verus! {

/// The first word of a record that asks for a jump.
pub const HANDOFF_MAGIC: u32 = 0x0FAC_ADE0;

/// What the record asks of the next boot.
#[derive(PartialEq, Eq, Structural, Clone, Copy, Debug)]
pub enum HandoffState {
    /// No jump is pending: boot into the loader.
    Idle,
    /// Jump to the given vector table address.
    PendingJump(u32),
}

/// The two words kept across a warm reset.
#[derive(PartialEq, Eq, Structural, Clone, Copy, Debug)]
pub struct HandoffRecord {
    pub magic: u32,
    pub target: u32,
}

/// The record as it stands after it was consumed.
pub open spec fn cleared_record() -> HandoffRecord {
    HandoffRecord { magic: 0, target: 0 }
}

/// The record as it stands after a jump to `addr` was requested.
pub open spec fn armed_record(addr: u32) -> HandoffRecord {
    HandoffRecord { magic: HANDOFF_MAGIC, target: addr }
}

/// What a record asks for: a jump where the magic word matches.
pub open spec fn handoff_state(rec: HandoffRecord) -> HandoffState {
    if rec.magic == HANDOFF_MAGIC {
        HandoffState::PendingJump(rec.target)
    } else {
        HandoffState::Idle
    }
}

/// The target that reading the record yields.
pub open spec fn pending_target(rec: HandoffRecord) -> Option<u32> {
    match handoff_state(rec) {
        HandoffState::PendingJump(a) => Some(a),
        HandoffState::Idle => None,
    }
}

impl HandoffRecord {
    /// A record that asks for nothing.
    pub fn cleared() -> (r: HandoffRecord)
        ensures
            r == cleared_record(),
    {
        HandoffRecord { magic: 0, target: 0 }
    }

    /// What the record asks of the next boot.
    pub fn state(&self) -> (r: HandoffState)
        ensures
            r == handoff_state(*self),
    {
        if self.magic == HANDOFF_MAGIC {
            HandoffState::PendingJump(self.target)
        } else {
            HandoffState::Idle
        }
    }

    /// Arms the record so that the next boot jumps to `addr`. The address is
    /// not validated.
    pub fn write_handoff(&mut self, addr: u32)
        ensures
            *final(self) == armed_record(addr),
            handoff_state(*final(self)) == HandoffState::PendingJump(addr),
    {
        self.magic = HANDOFF_MAGIC;
        self.target = addr;
    }

    /// Reads the record and clears it in the same step: returns the jump
    /// target if one was pending.
    pub fn read_and_clear_handoff(&mut self) -> (r: Option<u32>)
        ensures
            r == pending_target(*old(self)),
            *final(self) == cleared_record(),
    {
        let r = match self.state() {
            HandoffState::PendingJump(a) => Some(a),
            HandoffState::Idle => None,
        };
        self.magic = 0;
        self.target = 0;
        r
    }
}

/// A record is consumed once: after a jump to `addr` is armed, the first
/// read after reset yields `addr` and clears the record, and a second read
/// yields nothing, so the boot after that stays in the loader.
pub proof fn lemma_handoff_observed_once(addr: u32)
    ensures
        pending_target(armed_record(addr)) == Some(addr),
        pending_target(cleared_record()) == None::<u32>,
        handoff_state(cleared_record()) == HandoffState::Idle,
{
}

} // verus!
