//! Run-state container for a schema-guided fuzzing campaign.
//!
//! The aggregate [`state::OpenApiFuzzerState`] owns the random source, the
//! corpus of interesting inputs, the corpus of objective-satisfying inputs
//! ("solutions"), two heterogeneous metadata registries, progress cursors,
//! counters and timestamps, and the immutable parsed API schema.  Every
//! accessor is a pure projection with a contract saying exactly which field
//! it reads or replaces.

pub mod corpus;
pub mod errors;
pub mod ids;
pub mod laws;
pub mod metadata;
pub mod named_metadata;
pub mod rand_source;
pub mod schema;
pub mod state;
