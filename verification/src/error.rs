//! Error taxonomy of the analyzer.

use vstd::prelude::*;

verus! {

/// Everything an analyzer operation can fail with.
///
/// The kernel- and descriptor-level failures are detected by the process
/// around the library, which reports them through the matching variant; the
/// library itself only ever produces `AppNotFound` and `MapError`.
#[derive(Clone, Copy, Debug, PartialEq, Eq, Structural)]
pub enum AnalyzerError {
    /// Loading the probe bytecode into the kernel failed.
    EbpfError,
    /// Loading or attaching the kernel-side program failed.
    BpfProgramError,
    /// Accessing the ring-buffer map of an attachment failed.
    BpfMapError,
    /// A filesystem or descriptor operation failed.
    IOError,
    /// No candidate (library path, symbol) combination attached to the
    /// target: the library, the symbol, or the permission was missing.
    AppNotFound,
    /// The ring-buffer map backing an attachment was missing.
    MapError,
}

} // verus!
