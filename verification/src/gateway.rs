//! Control state and pending-event queue of the collection gateway.
//!
//! The gateway runs one long-lived background thread that drains the engine
//! and queues (pid, frame duration) pairs for foreign callers.  Its loop is
//! governed by a three-state control variable with a wake-on-any-transition
//! signal; the decisions — what a pause, resume or stop request does, what
//! one pass of the loop does in each state, which queued event a receive
//! call takes — are made and proved here, while the thread, the lock and
//! the condition variable live with the process around the library.

use vstd::prelude::*;

use crate::frametime::FrameDuration;
use crate::Pid;

verus! {

/// The three-state control variable of the background collection thread.
#[derive(Clone, Copy, Debug, PartialEq, Eq, Structural)]
pub enum CollectorState {
    /// Collecting: each pass of the loop drains the engine once.
    Running,
    /// Halted by a pause request: nothing is drained or queued, every
    /// attachment is kept, so a resume continues seamlessly.
    Paused,
    /// Torn down: the background thread leaves its loop.
    Stopped,
}

/// What one pass of the background loop does.
#[derive(Clone, Copy, Debug, PartialEq, Eq, Structural)]
pub enum CollectorAction {
    /// Drain the engine once and queue whatever it yields.
    CollectOnce,
    /// Block on the control condition until the state changes.
    WaitForResume,
    /// Leave the loop.
    Exit,
}

impl CollectorState {
    /// The state a pause request moves to: collection halts, but a
    /// torn-down gateway stays torn down.
    pub open spec fn spec_pause(self) -> CollectorState {
        match self {
            CollectorState::Stopped => CollectorState::Stopped,
            _ => CollectorState::Paused,
        }
    }

    /// The state a resume request moves to: collection continues, but a
    /// torn-down gateway stays torn down.
    pub open spec fn spec_resume(self) -> CollectorState {
        match self {
            CollectorState::Stopped => CollectorState::Stopped,
            _ => CollectorState::Running,
        }
    }

    /// The state a stop request moves to: final, whatever came before.
    pub open spec fn spec_stop(self) -> CollectorState {
        CollectorState::Stopped
    }

    /// The action one pass of the background loop takes in this state.
    pub open spec fn spec_step(self) -> CollectorAction {
        match self {
            CollectorState::Running => CollectorAction::CollectOnce,
            CollectorState::Paused => CollectorAction::WaitForResume,
            CollectorState::Stopped => CollectorAction::Exit,
        }
    }

    /// Takes a pause request.
    pub fn pause(self) -> (r: CollectorState)
        ensures
            r == self.spec_pause(),
    {
        match self {
            CollectorState::Stopped => CollectorState::Stopped,
            _ => CollectorState::Paused,
        }
    }

    /// Takes a resume request.
    pub fn resume(self) -> (r: CollectorState)
        ensures
            r == self.spec_resume(),
    {
        match self {
            CollectorState::Stopped => CollectorState::Stopped,
            _ => CollectorState::Running,
        }
    }

    /// Takes a stop request.
    pub fn stop(self) -> (r: CollectorState)
        ensures
            r == self.spec_stop(),
    {
        CollectorState::Stopped
    }

    /// Whether collection is currently halted by a pause.
    pub fn is_paused(self) -> (r: bool)
        ensures
            r == (self is Paused),
    {
        match self {
            CollectorState::Paused => true,
            _ => false,
        }
    }

    /// Decides one pass of the background loop.
    pub fn step(self) -> (a: CollectorAction)
        ensures
            a == self.spec_step(),
    {
        match self {
            CollectorState::Running => CollectorAction::CollectOnce,
            CollectorState::Paused => CollectorAction::WaitForResume,
            CollectorState::Stopped => CollectorAction::Exit,
        }
    }
}

/// Law: after a pause request, no pass of the background loop collects —
/// so nothing new is queued however many frames the target produces —
/// until a resume request, which continues collection unless the gateway
/// was already torn down.
pub proof fn lemma_pause_halts_collection(s: CollectorState)
    ensures
        s.spec_pause().spec_step() != CollectorAction::CollectOnce,
        s.spec_pause().spec_resume() == if s is Stopped {
            CollectorState::Stopped
        } else {
            CollectorState::Running
        },
{
}

/// True when some event of `s` belongs to `pid`.
pub open spec fn has_match(s: Seq<(Pid, FrameDuration)>, pid: Pid) -> bool {
    exists|i: int| 0 <= i < s.len() && s[i].0 == pid
}

/// The position of the earliest event of `s` belonging to `pid`;
/// meaningful only while `has_match(s, pid)` holds.
pub open spec fn first_match_index(s: Seq<(Pid, FrameDuration)>, pid: Pid) -> int {
    choose|i: int|
        0 <= i < s.len() && s[i].0 == pid && (forall|j: int| 0 <= j < i ==> s[j].0 != pid)
}

/// The pending-event queue the background thread fills and foreign receive
/// calls drain: (pid, frame duration) pairs, FIFO by arrival.
pub struct PendingEvents {
    items: Vec<(Pid, FrameDuration)>,
}

impl PendingEvents {
    /// The queued events, arrival order, front first.
    pub closed spec fn events(&self) -> Seq<(Pid, FrameDuration)> {
        self.items@
    }

    /// An empty queue.
    pub fn new() -> (r: PendingEvents)
        ensures
            r.events() == Seq::<(Pid, FrameDuration)>::empty(),
    {
        PendingEvents { items: Vec::new() }
    }

    /// How many events are pending.
    pub fn len(&self) -> (r: usize)
        ensures
            r == self.events().len(),
    {
        self.items.len()
    }

    /// Appends one drained event at the back.
    pub fn push(&mut self, pid: Pid, duration: FrameDuration)
        ensures
            final(self).events() == old(self).events().push((pid, duration)),
    {
        self.items.push((pid, duration));
    }

    /// Removes and returns the earliest queued event belonging to `pid` —
    /// wherever it stands in the queue, not necessarily at the front.  A
    /// queue holding nothing for `pid` yields nothing and changes nothing:
    /// that is the "no data" answer of a receive call, not an error.
    pub fn take_first_match(&mut self, pid: Pid) -> (r: Option<FrameDuration>)
        ensures
            !has_match(old(self).events(), pid) ==> r is None && final(self).events() == old(
                self,
            ).events(),
            has_match(old(self).events(), pid) ==> ({
                let i = first_match_index(old(self).events(), pid);
                &&& 0 <= i < old(self).events().len()
                &&& old(self).events()[i].0 == pid
                &&& forall|j: int| 0 <= j < i ==> old(self).events()[j].0 != pid
                &&& r == Some(old(self).events()[i].1)
                &&& final(self).events() == old(self).events().remove(i)
            }),
    {
        let ghost s0 = self.items@;
        let mut k: usize = 0;
        while k < self.items.len()
            invariant
                k <= self.items@.len(),
                self.items@ == s0,
                old(self).events() == s0,
                forall|j: int| 0 <= j < k ==> (#[trigger] s0[j]).0 != pid,
            decreases self.items@.len() - k,
        {
            if self.items[k].0 == pid {
                let e = self.items[k];
                self.items.remove(k);
                proof {
                    let ki = k as int;
                    assert(s0[ki].0 == pid && (forall|j: int| 0 <= j < ki ==> s0[j].0 != pid));
                    assert(has_match(s0, pid));
                    let c = first_match_index(s0, pid);
                    assert(0 <= c < s0.len() && s0[c].0 == pid && (forall|j: int|
                        0 <= j < c ==> s0[j].0 != pid));
                    if c < ki {
                        assert(s0[c].0 != pid);
                    }
                    if c > ki {
                        assert(s0[ki].0 != pid);
                    }
                    assert(c == ki);
                }
                return Some(e.1);
            }
            k = k + 1;
        }
        None
    }

    /// Discards every pending event, for teardown: a later initialization
    /// starts from a clean queue.
    pub fn clear(&mut self)
        ensures
            final(self).events() == Seq::<(Pid, FrameDuration)>::empty(),
    {
        self.items.clear();
    }
}

} // verus!
