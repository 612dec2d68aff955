//! The barrier seen across the whole mesh.
//!
//! Each party steps as `BarrierState` says. The network between them is
//! reduced to what the barrier needs: a byte can be read by a party only after
//! it was written to that party's channel. Over every run of that system, a
//! party other than the coordinator passes the barrier only after the
//! coordinator has sent it the sentinel.

use vstd::prelude::*;
use crate::barrier::{BarrierAction, BarrierEvent, BarrierState, coordinator_of};

verus! {

/// Every party's place at the barrier, and for each party the number of bytes
/// that were written to it and that it has not read yet.
pub struct MeshBarrier {
    pub places: Seq<BarrierState>,
    pub in_flight: Seq<int>,
}

impl MeshBarrier {
    /// The number of parties.
    pub open spec fn parties(self) -> int {
        self.places.len() as int
    }

    /// The coordinator's place.
    pub open spec fn coordinator(self) -> BarrierState {
        self.places[coordinator_of(self.parties())]
    }

    /// The mesh of `n` parties as they arrive: nobody has sent or read.
    pub open spec fn arriving(n: int) -> MeshBarrier {
        MeshBarrier {
            places: Seq::new(n as nat, |i: int| BarrierState::arriving(i, n)),
            in_flight: Seq::new(n as nat, |i: int| 0int),
        }
    }

    /// The coordinator writes the sentinel to `peer`, the party that its own
    /// action names: the byte is then on its way to `peer`.
    pub open spec fn coordinator_sends(self, next: MeshBarrier, peer: int) -> bool {
        let c = coordinator_of(self.parties());
        &&& self.coordinator().action() == (BarrierAction::Send { peer: peer as usize })
        &&& 0 <= peer < self.parties()
        &&& next.places == self.places.update(c, self.coordinator().after(BarrierEvent::Sent))
        &&& next.in_flight == self.in_flight.update(peer, self.in_flight[peer] + 1)
    }

    /// Party `p`, which awaits a byte, reads one: there has to be one on its
    /// way to `p`.
    pub open spec fn party_reads(self, next: MeshBarrier, p: int, byte: u8) -> bool {
        &&& 0 <= p < self.parties()
        &&& self.places[p].action() is Await
        &&& self.in_flight[p] > 0
        &&& next.places == self.places.update(
            p,
            self.places[p].after(BarrierEvent::Received { byte }),
        )
        &&& next.in_flight == self.in_flight.update(p, self.in_flight[p] - 1)
    }

    /// One step of the mesh: the coordinator sends, or some party reads.
    pub open spec fn step(self, next: MeshBarrier) -> bool {
        ||| exists|peer: int| self.coordinator_sends(next, peer)
        ||| exists|p: int, byte: u8| self.party_reads(next, p, byte)
    }

    /// Whether the coordinator has sent the sentinel to party `p`.
    pub open spec fn sent_to(self, p: int) -> bool {
        p < self.coordinator().done
    }

    /// What holds of every state of a run: the places are those of the parties
    /// `0 .. n`, and for each party but the coordinator the bytes on their way
    /// to it and the byte it has read are together the one byte that the
    /// coordinator has sent it, or none.
    pub open spec fn consistent(self) -> bool {
        let n = self.parties();
        &&& 2 <= n
        &&& self.in_flight.len() == n
        &&& forall|i: int|
            0 <= i < n ==> {
                &&& (#[trigger] self.places[i]).wf()
                &&& self.places[i].index == i
                &&& self.places[i].parties == n
            }
        &&& forall|p: int|
            0 <= p < n - 1 ==> (#[trigger] self.in_flight[p]) + self.places[p].done == if self.sent_to(
                p,
            ) {
                1int
            } else {
                0int
            }
    }
}

/// Whether `trace` is a run of the barrier among `n` parties: it starts with
/// all of them arriving, and each state follows from the one before by a step.
pub open spec fn is_run(trace: Seq<MeshBarrier>, n: int) -> bool {
    &&& trace.len() > 0
    &&& trace[0] == MeshBarrier::arriving(n)
    &&& forall|k: int| 0 <= k < trace.len() - 1 ==> (#[trigger] trace[k]).step(trace[k + 1])
}

/// The arriving mesh is consistent.
pub proof fn lemma_arriving_consistent(n: int)
    requires
        2 <= n <= usize::MAX,
    ensures
        MeshBarrier::arriving(n).consistent(),
{
}

/// A step keeps the mesh consistent.
pub proof fn lemma_step_consistent(pre: MeshBarrier, post: MeshBarrier)
    requires
        pre.consistent(),
        pre.step(post),
    ensures
        post.consistent(),
{
    let n = pre.parties();
    let c = coordinator_of(n);
    assert(pre.places[c].wf());
    if exists|peer: int| pre.coordinator_sends(post, peer) {
        let peer = choose|peer: int| pre.coordinator_sends(post, peer);
        assert(peer == pre.coordinator().done);
        assert forall|i: int| 0 <= i < n implies {
            &&& (#[trigger] post.places[i]).wf()
            &&& post.places[i].index == i
            &&& post.places[i].parties == n
        } by {
            assert(pre.places[i].wf());
        }
        assert forall|p: int| 0 <= p < n - 1 implies (#[trigger] post.in_flight[p])
            + post.places[p].done == if post.sent_to(p) {
            1int
        } else {
            0int
        } by {
            assert(pre.in_flight[p] + pre.places[p].done == if pre.sent_to(p) {
                1int
            } else {
                0int
            });
        }
    } else {
        let (q, byte) = choose|q: int, byte: u8| pre.party_reads(post, q, byte);
        assert(pre.places[q].wf());
        assert(q != c);
        assert forall|i: int| 0 <= i < n implies {
            &&& (#[trigger] post.places[i]).wf()
            &&& post.places[i].index == i
            &&& post.places[i].parties == n
        } by {
            assert(pre.places[i].wf());
        }
        assert forall|p: int| 0 <= p < n - 1 implies (#[trigger] post.in_flight[p])
            + post.places[p].done == if post.sent_to(p) {
            1int
        } else {
            0int
        } by {
            assert(pre.in_flight[p] + pre.places[p].done == if pre.sent_to(p) {
                1int
            } else {
                0int
            });
        }
    }
}

/// Every state of a run is consistent.
pub proof fn lemma_run_consistent(trace: Seq<MeshBarrier>, n: int, i: int)
    requires
        2 <= n <= usize::MAX,
        is_run(trace, n),
        0 <= i < trace.len(),
    ensures
        trace[i].consistent(),
        trace[i].parties() == n,
    decreases i,
{
    if i == 0 {
        lemma_arriving_consistent(n);
    } else {
        lemma_run_consistent(trace, n, i - 1);
        assert(trace[i - 1].step(trace[i]));
        lemma_step_consistent(trace[i - 1], trace[i]);
    }
}

/// Where the coordinator has sent to `p` by state `i` of a run, one of the
/// steps before state `i` is that send. The result is the number of the state
/// from which the coordinator sent.
pub proof fn lemma_send_is_in_the_past(trace: Seq<MeshBarrier>, n: int, i: int, p: int) -> (k:
    int)
    requires
        2 <= n <= usize::MAX,
        is_run(trace, n),
        0 <= i < trace.len(),
        0 <= p < n - 1,
        trace[i].sent_to(p),
    ensures
        0 <= k < i,
        trace[k].coordinator_sends(trace[k + 1], p),
    decreases i,
{
    lemma_run_consistent(trace, n, i);
    if i == 0 {
        assert(false);
        0
    } else {
        let pre = trace[i - 1];
        let post = trace[i];
        lemma_run_consistent(trace, n, i - 1);
        assert(pre.step(post));
        if pre.sent_to(p) {
            lemma_send_is_in_the_past(trace, n, i - 1, p)
        } else {
            let c = coordinator_of(n);
            assert(pre.places[c].wf());
            if exists|peer: int| pre.coordinator_sends(post, peer) {
                let peer = choose|peer: int| pre.coordinator_sends(post, peer);
                assert(peer == p);
            } else {
                let (q, byte) = choose|q: int, byte: u8| pre.party_reads(post, q, byte);
                assert(pre.places[q].wf());
                assert(q != c);
                assert(false);
            }
            i - 1
        }
    }
}

/// In every run of the barrier, a party other than the coordinator that has
/// passed the barrier by state `i` was sent the sentinel by the coordinator at
/// an earlier step: nobody starts the timed work before the coordinator, whose
/// mesh is then complete, has sent to it.
pub proof fn lemma_no_release_before_sentinel(trace: Seq<MeshBarrier>, n: int, i: int, p: int)
    requires
        2 <= n <= usize::MAX,
        is_run(trace, n),
        0 <= i < trace.len(),
        0 <= p < n - 1,
        trace[i].places[p].released(),
    ensures
        trace[i].sent_to(p),
        exists|k: int| 0 <= k < i && (#[trigger] trace[k]).coordinator_sends(trace[k + 1], p),
{
    lemma_run_consistent(trace, n, i);
    assert(trace[i].places[p].wf());
    assert(trace[i].in_flight[p] + trace[i].places[p].done == if trace[i].sent_to(p) {
        1int
    } else {
        0int
    });
    lemma_in_flight_nonnegative(trace, n, i, p);
    let k = lemma_send_is_in_the_past(trace, n, i, p);
    assert(trace[k].coordinator_sends(trace[k + 1], p));
}

/// No channel ever holds fewer than no bytes.
pub proof fn lemma_in_flight_nonnegative(trace: Seq<MeshBarrier>, n: int, i: int, p: int)
    requires
        2 <= n <= usize::MAX,
        is_run(trace, n),
        0 <= i < trace.len(),
        0 <= p < n,
    ensures
        trace[i].in_flight[p] >= 0,
    decreases i,
{
    if i > 0 {
        lemma_in_flight_nonnegative(trace, n, i - 1, p);
        lemma_run_consistent(trace, n, i - 1);
        lemma_run_consistent(trace, n, i);
        let pre = trace[i - 1];
        let post = trace[i];
        assert(pre.step(post));
        if exists|peer: int| pre.coordinator_sends(post, peer) {
            let peer = choose|peer: int| pre.coordinator_sends(post, peer);
        } else {
            let (q, byte) = choose|q: int, byte: u8| pre.party_reads(post, q, byte);
        }
    }
}

} // verus!
