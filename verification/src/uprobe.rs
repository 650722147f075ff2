//! The probe-attachment search space and its first-success rule.
//!
//! One kernel probe is bound to the graphics-compositing entry point of a
//! target process.  The mangled name of that entry point and the location of
//! the library exporting it vary across OS versions and architectures, so
//! attachment walks a fixed, ordered matrix of candidates — library paths
//! outermost, most specific first, symbol variants innermost — and the first
//! candidate that attaches wins.  The walk itself is driven by the process
//! around the library, which reports each attempt's outcome; the order and
//! the stopping rule are decided here.

use vstd::prelude::*;

verus! {

/// Number of candidate library paths.
pub const PATH_COUNT: usize = 2;

/// Number of candidate symbol variants per library.
pub const SYMBOL_COUNT: usize = 2;

/// Number of (path, symbol) candidates the search may try, in order.
pub const CANDIDATE_COUNT: usize = PATH_COUNT * SYMBOL_COUNT;

/// Candidate locations of the graphics library, most specific first.
pub fn candidate_paths() -> (r: Vec<&'static str>)
    ensures
        r@.len() == PATH_COUNT,
        r@[0]@ == "/system/lib64/libgui.so"@,
        r@[1]@ == "/system/lib/libgui.so"@,
{
    let mut v: Vec<&'static str> = Vec::new();
    v.push("/system/lib64/libgui.so");
    v.push("/system/lib/libgui.so");
    v
}

/// Candidate mangled names of the compositing entry point, covering the
/// known ABI variants of its signature.
pub fn candidate_symbols() -> (r: Vec<&'static str>)
    ensures
        r@.len() == SYMBOL_COUNT,
        r@[0]@ == "_ZN7android7Surface11queueBufferEP19ANativeWindowBufferi"@,
        r@[1]@ == "_ZN7android7Surface11queueBufferEP19ANativeWindowBufferiPNS_24SurfaceQueueBufferOutputE"@,
{
    let mut v: Vec<&'static str> = Vec::new();
    v.push("_ZN7android7Surface11queueBufferEP19ANativeWindowBufferi");
    v.push("_ZN7android7Surface11queueBufferEP19ANativeWindowBufferiPNS_24SurfaceQueueBufferOutputE");
    v
}

/// The (path, symbol) pair standing at one position of the search order:
/// paths are walked outermost, symbols innermost.
pub fn candidate_at(i: usize) -> (r: (usize, usize))
    requires
        i < CANDIDATE_COUNT,
    ensures
        r.0 == i / SYMBOL_COUNT,
        r.1 == i % SYMBOL_COUNT,
        r.0 < PATH_COUNT,
        r.1 < SYMBOL_COUNT,
{
    (i / SYMBOL_COUNT, i % SYMBOL_COUNT)
}

/// The first-success rule of the attachment search: given the outcome of
/// each attempted candidate in search order, the winner is the earliest
/// success, and no candidate after it is ever considered.  A search in
/// which every candidate failed names no winner, which the caller reports
/// as "target not found".
pub fn first_success(outcomes: &Vec<bool>) -> (r: Option<usize>)
    ensures
        match r {
            Some(i) => i < outcomes@.len() && outcomes@[i as int] && (forall|j: int|
                0 <= j < i ==> !outcomes@[j]),
            None => forall|j: int| 0 <= j < outcomes@.len() ==> !outcomes@[j],
        },
{
    let mut k: usize = 0;
    while k < outcomes.len()
        invariant
            k <= outcomes@.len(),
            forall|j: int| 0 <= j < k ==> !outcomes@[j],
        decreases outcomes@.len() - k,
    {
        if outcomes[k] {
            return Some(k);
        }
        k = k + 1;
    }
    None
}

/// What the engine keeps of one bound kernel probe: the descriptor of the
/// ring buffer the probe fills, and the candidate that won the search, so
/// that a later re-attachment can retry the same library first.
#[derive(Clone, Copy, Debug, PartialEq, Eq, Structural)]
pub struct ProbeAttachment {
    /// Raw descriptor of the ring buffer backing this attachment.
    pub ring_fd: i32,
    /// Index into `candidate_paths` of the library that attached.
    pub path_idx: usize,
    /// Index into `candidate_symbols` of the symbol that attached.
    pub sym_idx: usize,
}

impl ProbeAttachment {
    /// Well-formed: the recorded winner lies inside the candidate matrix.
    pub open spec fn wf(&self) -> bool {
        self.path_idx < PATH_COUNT && self.sym_idx < SYMBOL_COUNT
    }

    /// Records the winning candidate of a search together with the ring
    /// descriptor it produced.
    pub fn new(ring_fd: i32, candidate: usize) -> (r: ProbeAttachment)
        requires
            candidate < CANDIDATE_COUNT,
        ensures
            r.wf(),
            r.ring_fd == ring_fd,
            r.path_idx == candidate / SYMBOL_COUNT,
            r.sym_idx == candidate % SYMBOL_COUNT,
    {
        let (path_idx, sym_idx) = candidate_at(candidate);
        ProbeAttachment { ring_fd, path_idx, sym_idx }
    }

    /// The descriptor of the ring buffer backing this attachment, for the
    /// multiplexer to register.
    pub fn ring(&self) -> (r: i32)
        ensures
            r == self.ring_fd,
    {
        self.ring_fd
    }
}

} // verus!
