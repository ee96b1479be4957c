use vstd::prelude::*;

verus! {

/// Stable identifier of a corpus entry.
///
/// Identifiers are handed out by the corpus store in increasing order and
/// are never reused, not even after the entry is removed.
#[derive(Clone, Copy, Debug, PartialEq, Eq, Structural)]
pub struct CorpusId(pub u64);

/// Identifier of a pipeline stage within the per-entry pipeline.
#[derive(Clone, Copy, Debug, PartialEq, Eq, Structural)]
pub struct StageId(pub u64);

} // verus!
