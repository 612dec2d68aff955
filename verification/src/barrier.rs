//! The readiness barrier: no party starts its timed work before the whole mesh
//! stands.
//!
//! The party with the highest index is the coordinator. Its own mesh is
//! complete only when every other party has reached it, so once it is, it
//! sends one sentinel byte to each of them. Every other party waits for that
//! byte on its channel to the coordinator. The decisions are made here; the
//! caller writes and reads the byte and reports back.

use vstd::prelude::*;
use crate::errors::{HarnessError, ProtocolError, Stage, TransportError};
use crate::rendezvous::Mesh;

verus! {

/// The byte that the coordinator sends.
pub const SENTINEL: u8 = 0;

/// The index of the coordinator among `parties` parties.
pub open spec fn coordinator_of(parties: int) -> int {
    parties - 1
}

/// What the caller is to do next at the barrier.
#[derive(Debug, Clone, Copy, PartialEq, Eq, Structural)]
pub enum BarrierAction {
    /// Write the sentinel to `peer` and flush.
    Send { peer: usize },
    /// Read one byte from `peer`.
    Await { peer: usize },
    /// The barrier is passed.
    Proceed,
}

/// What the caller reports back.
#[derive(Debug, Clone, Copy, PartialEq, Eq, Structural)]
pub enum BarrierEvent {
    /// The sentinel was written and flushed.
    Sent,
    /// One byte was read.
    Received { byte: u8 },
    /// The write, the flush or the read failed.
    Failed,
}

/// One party's place at the barrier, as a plain value.
pub struct BarrierState {
    /// The party's index.
    pub index: int,
    /// The number of parties.
    pub parties: int,
    /// For the coordinator, the number of parties that it has sent the
    /// sentinel to, lowest index first. For any other party, 1 once it has
    /// read its byte and 0 before.
    pub done: int,
}

impl BarrierState {
    /// Whether this is the coordinator.
    pub open spec fn is_coordinator(self) -> bool {
        self.index == coordinator_of(self.parties)
    }

    /// The value of `done` with which the party has passed the barrier.
    pub open spec fn target(self) -> int {
        if self.is_coordinator() {
            self.parties - 1
        } else {
            1
        }
    }

    /// Whether the party has passed the barrier.
    pub open spec fn released(self) -> bool {
        self.done == self.target()
    }

    /// A party of a mesh of two or more, not past its target.
    pub open spec fn wf(self) -> bool {
        &&& 2 <= self.parties <= usize::MAX
        &&& 0 <= self.index < self.parties
        &&& 0 <= self.done <= self.target()
    }

    /// The party as it arrives at the barrier.
    pub open spec fn arriving(index: int, parties: int) -> BarrierState {
        BarrierState { index, parties, done: 0 }
    }

    /// What the party does next.
    pub open spec fn action(self) -> BarrierAction {
        if self.released() {
            BarrierAction::Proceed
        } else if self.is_coordinator() {
            BarrierAction::Send { peer: self.done as usize }
        } else {
            BarrierAction::Await { peer: coordinator_of(self.parties) as usize }
        }
    }

    /// Whether `event` is the success of the action that the party is at.
    pub open spec fn completes(self, event: BarrierEvent) -> bool {
        match (self.action(), event) {
            (BarrierAction::Send { .. }, BarrierEvent::Sent) => true,
            (BarrierAction::Await { .. }, BarrierEvent::Received { .. }) => true,
            _ => false,
        }
    }

    /// The party after `event`: one step further where the event is the success
    /// of its action, unchanged otherwise.
    pub open spec fn after(self, event: BarrierEvent) -> BarrierState {
        if self.completes(event) {
            BarrierState { done: self.done + 1, ..self }
        } else {
            self
        }
    }

    /// What the party answers to `event`: nothing where the event is the
    /// success of its action; a transport error, with the peer of the action,
    /// where the action failed; and `Unexpected` for an event that does not
    /// belong to the action.
    pub open spec fn answer(self, event: BarrierEvent) -> Result<(), HarnessError> {
        match (self.action(), event) {
            (BarrierAction::Send { .. }, BarrierEvent::Sent) => Ok(()),
            (BarrierAction::Await { .. }, BarrierEvent::Received { .. }) => Ok(()),
            (BarrierAction::Send { peer }, BarrierEvent::Failed) => Err(
                HarnessError::Transport(
                    TransportError { stage: Stage::Send, party: self.index as usize, peer },
                ),
            ),
            (BarrierAction::Await { peer }, BarrierEvent::Failed) => Err(
                HarnessError::Transport(
                    TransportError { stage: Stage::Receive, party: self.index as usize, peer },
                ),
            ),
            _ => Err(HarnessError::Protocol(ProtocolError::Unexpected)),
        }
    }
}

/// One party's place at the barrier.
pub struct Barrier {
    index: usize,
    parties: usize,
    done: usize,
}

impl Barrier {
    /// The party's place as a plain value.
    pub closed spec fn view(&self) -> BarrierState {
        BarrierState { index: self.index as int, parties: self.parties as int, done: self.done as int }
    }

    /// The party of `mesh` as it arrives at the barrier.
    pub fn new(mesh: &Mesh) -> (barrier: Barrier)
        requires
            mesh.wf(),
        ensures
            barrier@ == BarrierState::arriving(mesh.index(), mesh.parties()),
            barrier@.wf(),
    {
        Barrier { index: mesh.own_index(), parties: mesh.party_count(), done: 0 }
    }

    /// Whether the party is the coordinator.
    pub fn is_coordinator(&self) -> (yes: bool)
        requires
            self@.wf(),
        ensures
            yes == self@.is_coordinator(),
    {
        self.index == self.parties - 1
    }

    /// Whether the party has passed the barrier.
    pub fn released(&self) -> (yes: bool)
        requires
            self@.wf(),
        ensures
            yes == self@.released(),
    {
        if self.index == self.parties - 1 {
            self.done == self.parties - 1
        } else {
            self.done == 1
        }
    }

    /// What the caller is to do next: the coordinator sends to the parties
    /// below it, lowest first; any other party awaits the coordinator's byte;
    /// a party that is through proceeds.
    pub fn next_action(&self) -> (action: BarrierAction)
        requires
            self@.wf(),
        ensures
            action == self@.action(),
    {
        if self.released() {
            BarrierAction::Proceed
        } else if self.index == self.parties - 1 {
            BarrierAction::Send { peer: self.done }
        } else {
            BarrierAction::Await { peer: self.parties - 1 }
        }
    }

    /// Takes the outcome of the action that `next_action` named.
    pub fn step(&mut self, event: BarrierEvent) -> (r: Result<(), HarnessError>)
        requires
            old(self)@.wf(),
        ensures
            final(self)@.wf(),
            final(self)@ == old(self)@.after(event),
            r == old(self)@.answer(event),
    {
        let action = self.next_action();
        match (action, event) {
            (BarrierAction::Send { .. }, BarrierEvent::Sent) => {
                self.done = self.done + 1;
                Ok(())
            },
            (BarrierAction::Await { .. }, BarrierEvent::Received { .. }) => {
                self.done = self.done + 1;
                Ok(())
            },
            (BarrierAction::Send { peer }, BarrierEvent::Failed) => Err(
                HarnessError::Transport(
                    TransportError { stage: Stage::Send, party: self.index, peer },
                ),
            ),
            (BarrierAction::Await { peer }, BarrierEvent::Failed) => Err(
                HarnessError::Transport(
                    TransportError { stage: Stage::Receive, party: self.index, peer },
                ),
            ),
            _ => Err(HarnessError::Protocol(ProtocolError::Unexpected)),
        }
    }
}

} // verus!
