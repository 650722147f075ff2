//! The engine that owns the attached frame sources and the readiness queue.
//!
//! The engine keeps the mapping from process id to frame source (keys
//! unique), together with the ordered queue of processes a multiplexer wake
//! reported ready but that have not been consumed yet.  The blocking wait
//! itself is descriptor work done by the process around the library, which
//! feeds the woken process ids in through [`Analyzer::push_events`] and
//! drains records into [`Analyzer::update_target`]; every decision — what
//! the multiplexer must have registered, which process is served next, what
//! each record yields — is made and proved here.

use vstd::prelude::*;

use crate::error::AnalyzerError;
use crate::frametime::FrameDuration;
use crate::source::FrameSource;
use crate::uprobe::ProbeAttachment;
use crate::Pid;

verus! {

broadcast use vstd::seq_lib::group_filter_ensures;

/// True when some entry of `s` is keyed by `pid`.
pub open spec fn has_pid(s: Seq<(Pid, FrameSource)>, pid: Pid) -> bool {
    exists|i: int| 0 <= i < s.len() && s[i].0 == pid
}

/// The index of the entry of `s` keyed by `pid`; meaningful only while
/// `has_pid(s, pid)` holds and the keys of `s` are unique.
pub open spec fn index_of_pid(s: Seq<(Pid, FrameSource)>, pid: Pid) -> int {
    choose|i: int| 0 <= i < s.len() && s[i].0 == pid
}

/// True when no two entries of `s` share a key.
pub open spec fn unique_pids(s: Seq<(Pid, FrameSource)>) -> bool {
    forall|a: int, b: int| 0 <= a < b < s.len() ==> s[a].0 != s[b].0
}

/// `q` with every occurrence of `pid` discarded, order kept.
pub open spec fn without_pid(q: Seq<Pid>, pid: Pid) -> Seq<Pid> {
    q.filter(|p: Pid| p != pid)
}

/// The woken process ids the engine admits to its queue: those attached in
/// `s`, order kept.  A wake for a process detached in the meantime is
/// discarded.
pub open spec fn admitted(s: Seq<(Pid, FrameSource)>, ready: Seq<Pid>) -> Seq<Pid> {
    ready.filter(|p: Pid| has_pid(s, p))
}

/// The source of `s` keyed by `pid`; meaningful only while `has_pid(s, pid)`
/// holds and the keys of `s` are unique.
pub open spec fn source_of(s: Seq<(Pid, FrameSource)>, pid: Pid) -> FrameSource {
    s[index_of_pid(s, pid)].1
}

/// `s` after its source for `pid` took `record`: the stored timestamp moves
/// as [`FrameSource::next_last`] says, and nothing else changes.
pub open spec fn updated_targets(
    s: Seq<(Pid, FrameSource)>,
    pid: Pid,
    record: Option<u64>,
) -> Seq<(Pid, FrameSource)> {
    s.update(
        index_of_pid(s, pid),
        (
            pid,
            (FrameSource {
                probe: source_of(s, pid).probe,
                last_ts: FrameSource::next_last(source_of(s, pid).last_ts, record),
            }),
        ),
    )
}

/// The engine: the set of attached frame sources keyed by process id, and
/// the ordered queue of already-woken-but-unconsumed process ids.
pub struct Analyzer {
    targets: Vec<(Pid, FrameSource)>,
    buffer: Vec<Pid>,
}

impl Analyzer {
    /// The attached sources, in attachment order, keyed by process id.
    pub closed spec fn targets_seq(&self) -> Seq<(Pid, FrameSource)> {
        self.targets@
    }

    /// The ready-process queue, front first.
    pub closed spec fn queue(&self) -> Seq<Pid> {
        self.buffer@
    }

    /// The attached process ids, in attachment order.
    pub open spec fn pid_seq(&self) -> Seq<Pid> {
        Seq::new(self.targets_seq().len(), |i: int| self.targets_seq()[i].0)
    }

    /// Whether `pid` is currently attached.
    pub open spec fn is_attached(&self, pid: Pid) -> bool {
        has_pid(self.targets_seq(), pid)
    }

    /// The set of attached process ids.
    pub open spec fn attached(&self) -> Set<Pid> {
        Set::new(|p: Pid| self.is_attached(p))
    }

    /// Internal invariant: keys are unique, every probe lies inside the
    /// candidate matrix, and every queued process id is attached.
    pub open spec fn wf(&self) -> bool {
        &&& unique_pids(self.targets_seq())
        &&& forall|i: int|
            0 <= i < self.targets_seq().len() ==> (
            #[trigger] self.targets_seq()[i]).1.probe.wf()
        &&& forall|k: int|
            0 <= k < self.queue().len() ==> has_pid(
                self.targets_seq(),
                #[trigger] self.queue()[k],
            )
    }

    /// A fresh engine: nothing attached, nothing queued.
    pub fn new() -> (r: Result<Analyzer, AnalyzerError>)
        ensures
            (r matches Ok(a) && a.wf() && a.targets_seq() == Seq::<(Pid, FrameSource)>::empty()
                && a.queue() == Seq::<Pid>::empty()),
    {
        Ok(Analyzer { targets: Vec::new(), buffer: Vec::new() })
    }

    /// The index of the entry keyed by `pid`, if one exists.
    fn find_index(&self, pid: Pid) -> (r: Option<usize>)
        ensures
            match r {
                Some(i) => i < self.targets@.len() && self.targets@[i as int].0 == pid,
                None => !has_pid(self.targets@, pid),
            },
    {
        let mut k: usize = 0;
        while k < self.targets.len()
            invariant
                k <= self.targets@.len(),
                forall|j: int| 0 <= j < k ==> (#[trigger] self.targets@[j]).0 != pid,
            decreases self.targets@.len() - k,
        {
            if self.targets[k].0 == pid {
                return Some(k);
            }
            k = k + 1;
        }
        None
    }

    /// Whether `app` is currently attached.
    pub fn contains(&self, app: Pid) -> (r: bool)
        ensures
            r == self.is_attached(app),
    {
        match self.find_index(app) {
            Some(_) => true,
            None => false,
        }
    }

    /// The attached process ids, in attachment order.
    pub fn pids(&self) -> (r: Vec<Pid>)
        ensures
            r@ == self.pid_seq(),
    {
        let mut out: Vec<Pid> = Vec::new();
        let mut k: usize = 0;
        while k < self.targets.len()
            invariant
                k <= self.targets@.len(),
                out@.len() == k,
                forall|j: int| 0 <= j < k ==> out@[j] == (#[trigger] self.targets@[j]).0,
            decreases self.targets@.len() - k,
        {
            out.push(self.targets[k].0);
            k = k + 1;
        }
        proof {
            assert(out@ =~= self.pid_seq());
        }
        out
    }

    /// What the multiplexer must have registered before its next wait: one
    /// entry per attached process, in attachment order, carrying the ring
    /// descriptor of its probe.  Rebuilt from the authoritative mapping, so
    /// the registration set always equals the current key set.
    pub fn registration(&self) -> (r: Vec<(Pid, i32)>)
        ensures
            r@.len() == self.targets_seq().len(),
            forall|i: int|
                0 <= i < r@.len() ==> #[trigger] r@[i] == (
                self.targets_seq()[i].0,
                self.targets_seq()[i].1.probe.ring_fd,
            ),
    {
        let mut out: Vec<(Pid, i32)> = Vec::new();
        let mut k: usize = 0;
        while k < self.targets.len()
            invariant
                k <= self.targets@.len(),
                out@.len() == k,
                forall|j: int|
                    0 <= j < k ==> #[trigger] out@[j] == (
                    self.targets@[j].0,
                    self.targets@[j].1.probe.ring_fd,
                ),
            decreases self.targets@.len() - k,
        {
            let entry = self.targets[k];
            out.push((entry.0, entry.1.probe.ring()));
            k = k + 1;
        }
        out
    }

    /// Attaches `pid`, recording the probe the search bound for it.  A
    /// second attach of the same pid is a success that changes nothing at
    /// all — the probe already in place keeps collecting.
    pub fn attach_app(&mut self, pid: Pid, probe: ProbeAttachment) -> (r: Result<
        (),
        AnalyzerError,
    >)
        requires
            old(self).wf(),
            probe.wf(),
        ensures
            final(self).wf(),
            r is Ok,
            old(self).is_attached(pid) ==> *final(self) == *old(self),
            !old(self).is_attached(pid) ==> final(self).targets_seq() == old(
                self,
            ).targets_seq().push((pid, (FrameSource { probe, last_ts: None }))),
            final(self).queue() == old(self).queue(),
            final(self).attached() == old(self).attached().insert(pid),
            final(self).is_attached(pid),
    {
        let ghost s0 = self.targets_seq();
        if self.contains(pid) {
            proof {
                assert(self.attached() =~= old(self).attached().insert(pid));
            }
            return Ok(());
        }
        let source = FrameSource::new(probe);
        self.targets.push((pid, source));
        proof {
            let s1 = self.targets_seq();
            assert forall|a: int, b: int| 0 <= a < b < s1.len() implies s1[a].0 != s1[b].0 by {
                if b == s1.len() - 1 {
                    if s1[a].0 == pid {
                        assert(s0[a].0 == pid);
                        assert(has_pid(s0, pid));
                    }
                }
            }
            assert forall|k: int| 0 <= k < self.queue().len() implies has_pid(
                s1,
                #[trigger] self.queue()[k],
            ) by {
                assert(self.queue()[k] == old(self).queue()[k]);
                assert(has_pid(s0, old(self).queue()[k]));
                let w = index_of_pid(s0, self.queue()[k]);
                assert(0 <= w < s0.len() && s0[w].0 == self.queue()[k]);
                assert(s1[w].0 == self.queue()[k]);
            }
            assert forall|p: Pid| #[trigger]
                has_pid(s1, p) implies has_pid(s0, p) || p == pid by {
                let w = choose|i: int| 0 <= i < s1.len() && s1[i].0 == p;
                if w < s0.len() {
                    assert(s0[w].0 == p);
                }
            }
            assert(has_pid(s1, pid)) by {
                assert(s1[s1.len() - 1].0 == pid);
            }
            assert forall|p: Pid| has_pid(s0, p) implies #[trigger] has_pid(s1, p) by {
                let w = index_of_pid(s0, p);
                assert(0 <= w < s0.len() && s0[w].0 == p);
                assert(s1[w].0 == p);
            }
            assert(self.attached() =~= old(self).attached().insert(pid));
        }
        Ok(())
    }

    /// Detaches `pid`: its source leaves the mapping, and any of its wakes
    /// still queued are discarded.  Detaching a pid that was never attached
    /// is a success that changes nothing.
    pub fn detach_app(&mut self, pid: Pid) -> (r: Result<(), AnalyzerError>)
        requires
            old(self).wf(),
        ensures
            final(self).wf(),
            r is Ok,
            !old(self).is_attached(pid) ==> *final(self) == *old(self),
            old(self).is_attached(pid) ==> final(self).targets_seq() == old(
                self,
            ).targets_seq().remove(index_of_pid(old(self).targets_seq(), pid)),
            old(self).is_attached(pid) ==> final(self).queue() == without_pid(
                old(self).queue(),
                pid,
            ),
            final(self).attached() == old(self).attached().remove(pid),
            !final(self).is_attached(pid),
    {
        let ghost s0 = self.targets_seq();
        let ghost q0 = self.queue();
        let idx = match self.find_index(pid) {
            None => {
                proof {
                    assert(self.attached() =~= old(self).attached().remove(pid));
                }
                return Ok(());
            },
            Some(i) => i,
        };
        proof {
            assert(has_pid(s0, pid)) by {
                assert(s0[idx as int].0 == pid);
            }
            lemma_index_of_unique(s0, idx as int);
        }
        self.targets.remove(idx);
        let mut kept: Vec<Pid> = Vec::new();
        let mut k: usize = 0;
        while k < self.buffer.len()
            invariant
                k <= self.buffer@.len(),
                self.buffer@ == q0,
                kept@ == without_pid(q0.take(k as int), pid),
                forall|m: int|
                    0 <= m < kept@.len() ==> has_pid(s0, #[trigger] kept@[m]) && kept@[m] != pid,
                forall|m: int| 0 <= m < q0.len() ==> has_pid(s0, #[trigger] q0[m]),
            decreases self.buffer@.len() - k,
        {
            let p = self.buffer[k];
            proof {
                lemma_without_pid_take_step(q0, pid, k as int);
            }
            if p != pid {
                kept.push(p);
            }
            k = k + 1;
        }
        proof {
            assert(q0.take(q0.len() as int) =~= q0);
        }
        self.buffer = kept;
        proof {
            let s1 = self.targets_seq();
            lemma_remove_keeps_unique(s0, idx as int);
            assert forall|m: int| 0 <= m < self.queue().len() implies has_pid(
                s1,
                #[trigger] self.queue()[m],
            ) by {
                lemma_has_pid_remove(s0, idx as int, self.queue()[m]);
            }
            assert forall|p: Pid| true implies #[trigger] has_pid(s1, p) == (has_pid(s0, p) && p
                != pid) by {
                lemma_has_pid_remove(s0, idx as int, p);
            }
            assert(self.attached() =~= old(self).attached().remove(pid));
        }
        Ok(())
    }

    /// Detaches everything: mapping and queue emptied, for full teardown.
    /// Never fails.
    pub fn detach_apps(&mut self)
        ensures
            final(self).wf(),
            final(self).targets_seq() == Seq::<(Pid, FrameSource)>::empty(),
            final(self).queue() == Seq::<Pid>::empty(),
            final(self).attached() == Set::<Pid>::empty(),
    {
        self.targets.clear();
        self.buffer.clear();
        proof {
            assert(self.attached() =~= Set::<Pid>::empty());
        }
    }

    /// Whether the next receive must wait on the multiplexer first: true
    /// exactly when no already-reported wake is queued.
    pub fn poll_needed(&self) -> (r: bool)
        ensures
            r == (self.queue().len() == 0),
    {
        self.buffer.is_empty()
    }

    /// Appends one multiplexer wake to the queue: the woken process ids, in
    /// reported order, except those no longer attached, which are
    /// discarded.
    pub fn push_events(&mut self, ready: &Vec<Pid>)
        requires
            old(self).wf(),
        ensures
            final(self).wf(),
            final(self).targets_seq() == old(self).targets_seq(),
            final(self).queue() == old(self).queue() + admitted(old(self).targets_seq(), ready@),
    {
        let ghost s0 = self.targets_seq();
        let ghost q0 = self.queue();
        let mut k: usize = 0;
        while k < ready.len()
            invariant
                k <= ready@.len(),
                self.targets@ == s0,
                self.buffer@ == q0 + admitted(s0, ready@.take(k as int)),
                forall|m: int| 0 <= m < q0.len() ==> has_pid(s0, #[trigger] q0[m]),
            decreases ready@.len() - k,
        {
            let p = ready[k];
            proof {
                lemma_admitted_take_step(s0, ready@, k as int);
            }
            if self.contains(p) {
                self.buffer.push(p);
            }
            k = k + 1;
        }
        proof {
            assert(ready@.take(ready@.len() as int) =~= ready@);
            assert forall|m: int| 0 <= m < self.queue().len() implies has_pid(
                s0,
                #[trigger] self.queue()[m],
            ) by {
                if m >= q0.len() {
                    let a = admitted(s0, ready@);
                    assert(a[m - q0.len()] == self.queue()[m]);
                }
            }
        }
    }

    /// Pops the process id at the front of the queue, if any.  An empty
    /// queue yields nothing and changes nothing — after a wait that timed
    /// out this is the "no data" answer, not an error.
    pub fn pop_ready(&mut self) -> (r: Option<Pid>)
        requires
            old(self).wf(),
        ensures
            final(self).wf(),
            final(self).targets_seq() == old(self).targets_seq(),
            old(self).queue().len() == 0 ==> r is None && *final(self) == *old(self),
            old(self).queue().len() > 0 ==> r == Some(old(self).queue()[0]) && final(self).queue()
                == old(self).queue().drop_first() && old(self).is_attached(old(self).queue()[0]),
    {
        if self.buffer.len() == 0 {
            None
        } else {
            let p = self.buffer.remove(0);
            proof {
                assert(self.buffer@ =~= old(self).queue().drop_first());
            }
            Some(p)
        }
    }

    /// Feeds the record drained for `pid` — or the fact that its ring was
    /// empty despite the wake — into its source.  Yields the (pid, frame
    /// duration) pair exactly when the source yields a duration; a spurious
    /// wake or a first record yields nothing.  A pid no longer attached
    /// changes nothing.
    pub fn update_target(&mut self, pid: Pid, record: Option<u64>) -> (r: Option<
        (Pid, FrameDuration),
    >)
        requires
            old(self).wf(),
        ensures
            final(self).wf(),
            final(self).queue() == old(self).queue(),
            final(self).pid_seq() == old(self).pid_seq(),
            final(self).attached() == old(self).attached(),
            !old(self).is_attached(pid) ==> *final(self) == *old(self) && r is None,
            old(self).is_attached(pid) ==> final(self).targets_seq() == updated_targets(
                old(self).targets_seq(),
                pid,
                record,
            ),
            old(self).is_attached(pid) ==> match FrameSource::yielded(
                source_of(old(self).targets_seq(), pid).last_ts,
                record,
            ) {
                Some(n) => (r matches Some(pd) && pd.0 == pid && pd.1.wf() && pd.1.as_nanos()
                    == n),
                None => r is None,
            },
    {
        let ghost s0 = self.targets_seq();
        let idx = match self.find_index(pid) {
            None => {
                return None;
            },
            Some(i) => i,
        };
        proof {
            assert(has_pid(s0, pid)) by {
                assert(s0[idx as int].0 == pid);
            }
            lemma_index_of_unique(s0, idx as int);
        }
        let entry = self.targets[idx];
        let mut src = entry.1;
        let d = src.update(record);
        self.targets.set(idx, (pid, src));
        proof {
            let s1 = self.targets_seq();
            assert(s1 =~= updated_targets(s0, pid, record));
            assert forall|a: int| 0 <= a < s1.len() implies (#[trigger] s1[a]).0 == s0[a].0 by {
                if a != idx {
                    assert(s1[a] == s0[a]);
                }
            }
            assert(final(self).pid_seq() =~= old(self).pid_seq());
            assert(unique_pids(s1));
            assert forall|i: int| 0 <= i < s1.len() implies (
            #[trigger] s1[i]).1.probe.wf() by {
                if i != idx {
                    assert(s1[i] == s0[i]);
                }
            }
            assert forall|p: Pid| true implies #[trigger] has_pid(s1, p) == has_pid(s0, p) by {
                if has_pid(s0, p) {
                    let w = index_of_pid(s0, p);
                    assert(0 <= w < s0.len() && s0[w].0 == p);
                    assert(s1[w].0 == p);
                }
                if has_pid(s1, p) {
                    let w = choose|i: int| 0 <= i < s1.len() && s1[i].0 == p;
                    assert(s0[w].0 == p);
                }
            }
            assert forall|m: int| 0 <= m < self.queue().len() implies has_pid(
                s1,
                #[trigger] self.queue()[m],
            ) by {
                assert(self.queue()[m] == old(self).queue()[m]);
                assert(has_pid(s0, old(self).queue()[m]));
            }
            assert(self.attached() =~= old(self).attached());
        }
        match d {
            Some(ft) => Some((pid, ft)),
            None => None,
        }
    }
}

/// In a sequence with unique keys, the entry found at `i` is the only one
/// with its key, so the chosen index is `i` itself.
proof fn lemma_index_of_unique(s: Seq<(Pid, FrameSource)>, i: int)
    requires
        unique_pids(s),
        0 <= i < s.len(),
    ensures
        index_of_pid(s, s[i].0) == i,
{
    assert(has_pid(s, s[i].0));
    let j = index_of_pid(s, s[i].0);
    assert(0 <= j < s.len() && s[j].0 == s[i].0);
    if i < j {
        assert(s[i].0 != s[j].0);
    }
    if j < i {
        assert(s[j].0 != s[i].0);
    }
}

/// Removing an entry keeps the remaining keys unique.
proof fn lemma_remove_keeps_unique(s: Seq<(Pid, FrameSource)>, i: int)
    requires
        unique_pids(s),
        0 <= i < s.len(),
    ensures
        unique_pids(s.remove(i)),
{
    let s1 = s.remove(i);
    assert forall|a: int, b: int| 0 <= a < b < s1.len() implies s1[a].0 != s1[b].0 by {
        let a0: int = if a < i {
            a
        } else {
            a + 1
        };
        let b0: int = if b < i {
            b
        } else {
            b + 1
        };
        assert(s1[a] == s[a0]);
        assert(s1[b] == s[b0]);
    }
}

/// Membership of a key after removing the entry of another key: everything
/// but the removed key survives.
proof fn lemma_has_pid_remove(s: Seq<(Pid, FrameSource)>, i: int, p: Pid)
    requires
        unique_pids(s),
        0 <= i < s.len(),
    ensures
        has_pid(s.remove(i), p) == (has_pid(s, p) && p != s[i].0),
{
    let s1 = s.remove(i);
    if has_pid(s1, p) {
        let j = choose|j: int| 0 <= j < s1.len() && s1[j].0 == p;
        let j0: int = if j < i {
            j
        } else {
            j + 1
        };
        assert(s1[j] == s[j0]);
        assert(s[j0].0 == p);
        if p == s[i].0 {
            if j0 < i {
                assert(s[j0].0 != s[i].0);
            } else {
                assert(s[i].0 != s[j0].0);
            }
        }
    }
    if has_pid(s, p) && p != s[i].0 {
        let j = choose|j: int| 0 <= j < s.len() && s[j].0 == p;
        if j < i {
            assert(s1[j] == s[j]);
            assert(s1[j].0 == p);
        } else {
            assert(s1[j - 1] == s[j]);
            assert(s1[j - 1].0 == p);
        }
    }
}

/// One step of discarding a pid from a queue prefix.
proof fn lemma_without_pid_take_step(q: Seq<Pid>, pid: Pid, k: int)
    requires
        0 <= k < q.len(),
    ensures
        without_pid(q.take(k + 1), pid) == if q[k] != pid {
            without_pid(q.take(k), pid).push(q[k])
        } else {
            without_pid(q.take(k), pid)
        },
{
    reveal(Seq::filter);
    assert(q.take(k + 1).drop_last() =~= q.take(k));
    assert(q.take(k + 1).last() == q[k]);
}

/// One step of admitting a wake prefix to the queue.
proof fn lemma_admitted_take_step(s: Seq<(Pid, FrameSource)>, ready: Seq<Pid>, k: int)
    requires
        0 <= k < ready.len(),
    ensures
        admitted(s, ready.take(k + 1)) == if has_pid(s, ready[k]) {
            admitted(s, ready.take(k)).push(ready[k])
        } else {
            admitted(s, ready.take(k))
        },
{
    reveal(Seq::filter);
    assert(ready.take(k + 1).drop_last() =~= ready.take(k));
    assert(ready.take(k + 1).last() == ready[k]);
}

/// One membership mutation of the engine, as the foreign surface issues it.
#[derive(Clone, Copy, Debug, PartialEq, Eq, Structural)]
pub enum AttachOp {
    /// An `Analyzer::attach_app` call for this pid.
    Attach(Pid),
    /// An `Analyzer::detach_app` call for this pid.
    Detach(Pid),
}

/// The attached set after one membership mutation: exactly what
/// [`Analyzer::attach_app`] and [`Analyzer::detach_app`] ensure of
/// [`Analyzer::attached`].
pub open spec fn apply_op(s: Set<Pid>, op: AttachOp) -> Set<Pid> {
    match op {
        AttachOp::Attach(p) => s.insert(p),
        AttachOp::Detach(p) => s.remove(p),
    }
}

/// The attached set after a sequence of membership mutations.
pub open spec fn apply_ops(s: Set<Pid>, ops: Seq<AttachOp>) -> Set<Pid>
    decreases ops.len(),
{
    if ops.len() == 0 {
        s
    } else {
        apply_op(apply_ops(s, ops.drop_last()), ops.last())
    }
}

/// Whether `op` names `pid`.
pub open spec fn mentions(op: AttachOp, pid: Pid) -> bool {
    match op {
        AttachOp::Attach(p) => p == pid,
        AttachOp::Detach(p) => p == pid,
    }
}

/// The net attach state of `pid` after `ops`, starting from a state in
/// which it is attached exactly when `init` holds: attached exactly when
/// the last operation naming it attaches it.
pub open spec fn net_attached(ops: Seq<AttachOp>, pid: Pid, init: bool) -> bool
    decreases ops.len(),
{
    if ops.len() == 0 {
        init
    } else if mentions(ops.last(), pid) {
        ops.last() is Attach
    } else {
        net_attached(ops.drop_last(), pid, init)
    }
}

/// Law: over any sequence of attach and detach calls, membership in the
/// attached set reflects exactly the net attach state of every pid.  The
/// engine realizes `apply_op` call by call — `attach_app` ensures the
/// attached set gains exactly the named pid, `detach_app` that it loses
/// exactly the named pid — so after any call sequence the attached set is
/// `apply_ops` of that sequence, and a pid is attached exactly when the
/// last call naming it was an attach.
pub proof fn lemma_net_attach_state(s: Set<Pid>, ops: Seq<AttachOp>, pid: Pid)
    ensures
        apply_ops(s, ops).contains(pid) == net_attached(ops, pid, s.contains(pid)),
    decreases ops.len(),
{
    if ops.len() > 0 {
        lemma_net_attach_state(s, ops.drop_last(), pid);
    }
}

/// Law: an attach and a detach of the same pid racing from two foreign
/// threads are serialized by the engine lock, so the mapping ends in
/// exactly one of the two single-call outcomes — absent when the detach
/// ran last, attached when the attach ran last — and every other pid is
/// untouched in both orders.
pub proof fn lemma_attach_detach_race(s: Set<Pid>, p: Pid, q: Pid)
    ensures
        apply_ops(s, seq![AttachOp::Attach(p), AttachOp::Detach(p)]) == s.remove(p),
        apply_ops(s, seq![AttachOp::Detach(p), AttachOp::Attach(p)]) == s.insert(p),
        p != q ==> apply_ops(s, seq![AttachOp::Attach(p), AttachOp::Detach(p)]).contains(q)
            == s.contains(q),
        p != q ==> apply_ops(s, seq![AttachOp::Detach(p), AttachOp::Attach(p)]).contains(q)
            == s.contains(q),
{
    let ad = seq![AttachOp::Attach(p), AttachOp::Detach(p)];
    let da = seq![AttachOp::Detach(p), AttachOp::Attach(p)];
    assert(apply_ops(s, Seq::<AttachOp>::empty()) == s);
    assert(apply_ops(s, seq![AttachOp::Attach(p)]) == s.insert(p)) by {
        assert(apply_ops(s, Seq::<AttachOp>::empty()) == s);
        assert(seq![AttachOp::Attach(p)].drop_last() =~= Seq::<AttachOp>::empty());
        assert(seq![AttachOp::Attach(p)].last() == AttachOp::Attach(p));
    }
    assert(apply_ops(s, seq![AttachOp::Detach(p)]) == s.remove(p)) by {
        assert(apply_ops(s, Seq::<AttachOp>::empty()) == s);
        assert(seq![AttachOp::Detach(p)].drop_last() =~= Seq::<AttachOp>::empty());
        assert(seq![AttachOp::Detach(p)].last() == AttachOp::Detach(p));
    }
    assert(apply_ops(s, ad) == s.insert(p).remove(p)) by {
        assert(ad.drop_last() =~= seq![AttachOp::Attach(p)]);
        assert(ad.last() == AttachOp::Detach(p));
    }
    assert(apply_ops(s, da) == s.remove(p).insert(p)) by {
        assert(da.drop_last() =~= seq![AttachOp::Detach(p)]);
        assert(da.last() == AttachOp::Attach(p));
    }
    assert(s.insert(p).remove(p) =~= s.remove(p));
    assert(s.remove(p).insert(p) =~= s.insert(p));
}

/// Law: teardown restores a clean, independently usable state.  An engine
/// whose mapping and queue `detach_apps` emptied has nothing attached and
/// nothing pending, exactly like the engine a fresh `Analyzer::new`
/// returns — so tearing the gateway down and initializing it again starts
/// from the same state as the first initialization.
pub proof fn lemma_teardown_clean(a: Analyzer)
    requires
        a.targets_seq() == Seq::<(Pid, FrameSource)>::empty(),
        a.queue() == Seq::<Pid>::empty(),
    ensures
        forall|p: Pid| !a.is_attached(p),
        a.attached() == Set::<Pid>::empty(),
        a.pid_seq() == Seq::<Pid>::empty(),
        a.wf(),
{
    assert(a.attached() =~= Set::<Pid>::empty());
    assert(a.pid_seq() =~= Seq::<Pid>::empty());
}

} // verus!
