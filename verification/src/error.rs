use vstd::prelude::*;

verus! {

/// Errors of the conversion pipeline.
///
/// Every error is final for the run: decoding, hierarchy building and
/// transform lookup never retry.  Each variant carries enough context
/// (byte offset, bone id, frame index) to diagnose a malformed asset.
#[derive(Debug, Clone, PartialEq, Eq)]
pub enum LabError {
    /// The byte stream ends before the block that was required; `offset`
    /// is the end of the range that could not be read.  The record counts
    /// are 32-bit fields, so the required end can exceed any real file
    /// size; the wide field reports it exactly even then.
    Truncated { offset: u128 },
    /// The leading two-byte version field is below the minimum supported
    /// version.
    UnsupportedVersion { found: u16 },
    /// A bone record's id does not equal its position in the bone table:
    /// ids must be dense `0..bone_count`.
    NonDenseBoneId { index: u32, id: u32 },
    /// No bone carries the sentinel parent id, so the tree has no root.
    MissingRoot,
    /// More than one bone carries the sentinel parent id; the first two
    /// offending bone ids are reported.
    MultipleRoots { first: u32, second: u32 },
    /// Every `(bone id, parent id)` pair whose parent id is neither the
    /// sentinel nor an existing bone id.
    UnresolvedParents { pairs: Vec<(u32, u32)> },
    /// Bones whose parent chain never reaches the root; the joint
    /// hierarchy must be a single tree.
    UnreachableBones { ids: Vec<u32> },
    /// A transform was requested for a key encoding whose backing track
    /// is absent.
    TrackMismatch { bone: u32, frame: u32 },
    /// A bone's inverse bind matrix is not invertible.
    NumericError { bone: u32 },
}

} // verus!
