use vstd::prelude::*;

use crate::corpus::{CorpusSlot, CorpusStore, Testcase};
use crate::errors::Error;
use crate::ids::{CorpusId, StageId};
use crate::metadata::{metadata_inserted, MetadataMap, MetadataValue, SchedulerMetadata};
use crate::named_metadata::NamedMetadataMap;
use crate::rand_source::RandSource;

verus! {

/// Default upper bound on generated input size, consulted by size-aware
/// mutators.
pub const DEFAULT_MAX_SIZE: usize = 1048576;

/// The run-state aggregate of a fuzzing campaign over a structured API
/// schema.
///
/// Every pipeline component reads or mutates a different slice of this
/// object through a narrow accessor; each accessor's contract says exactly
/// which field it projects and that it touches nothing else.
#[derive(Debug, PartialEq)]
pub struct OpenApiFuzzerState {
    /// Seeded random source, mutated by any stage that needs entropy.
    pub rand: RandSource,
    /// Monotonically increasing counter of target invocations.
    pub executions: u64,
    /// Cooperative early-termination flag.
    pub stop_requested: bool,
    /// Campaign start, in milliseconds; set once at construction.
    pub start_time: u64,
    /// Corpus of interesting inputs.
    pub corpus: CorpusStore,
    /// Corpus of objective-satisfying inputs.
    pub solutions: CorpusStore,
    /// Pipeline stage currently being executed, if any.
    pub current_stage: Option<StageId>,
    /// Corpus entry currently being processed, if any.
    pub current_corpus_id: Option<CorpusId>,
    /// Type-keyed metadata registry.
    pub metadata: MetadataMap,
    /// Name-and-type-keyed metadata registry.
    pub named_metadata: NamedMetadataMap,
    /// Upper bound on generated input size.
    pub max_size: usize,
    /// Campaign-relative time of the latest discovery, in milliseconds.
    pub last_found_time: u64,
    /// Immutable, fully parsed API schema; never mutated, never exposed
    /// mutably.
    pub api: openapiv3::OpenAPI,
}

/// `s` with its random source replaced.
pub open spec fn with_rand(s: OpenApiFuzzerState, v: RandSource) -> OpenApiFuzzerState {
    OpenApiFuzzerState { rand: v, ..s }
}

/// `s` with its execution counter replaced.
pub open spec fn with_executions(s: OpenApiFuzzerState, v: u64) -> OpenApiFuzzerState {
    OpenApiFuzzerState { executions: v, ..s }
}

/// `s` with its stop flag replaced.
pub open spec fn with_stop(s: OpenApiFuzzerState, v: bool) -> OpenApiFuzzerState {
    OpenApiFuzzerState { stop_requested: v, ..s }
}

/// `s` with its start time replaced.
pub open spec fn with_start_time(s: OpenApiFuzzerState, v: u64) -> OpenApiFuzzerState {
    OpenApiFuzzerState { start_time: v, ..s }
}

/// `s` with its corpus replaced.
pub open spec fn with_corpus(s: OpenApiFuzzerState, v: CorpusStore) -> OpenApiFuzzerState {
    OpenApiFuzzerState { corpus: v, ..s }
}

/// `s` with its solutions store replaced.
pub open spec fn with_solutions(s: OpenApiFuzzerState, v: CorpusStore) -> OpenApiFuzzerState {
    OpenApiFuzzerState { solutions: v, ..s }
}

/// `s` with its stage cursor replaced.
pub open spec fn with_stage(s: OpenApiFuzzerState, v: Option<StageId>) -> OpenApiFuzzerState {
    OpenApiFuzzerState { current_stage: v, ..s }
}

/// `s` with its corpus cursor replaced.
pub open spec fn with_corpus_id(
    s: OpenApiFuzzerState,
    v: Option<CorpusId>,
) -> OpenApiFuzzerState {
    OpenApiFuzzerState { current_corpus_id: v, ..s }
}

/// `s` with its type-keyed registry replaced.
pub open spec fn with_metadata(s: OpenApiFuzzerState, v: MetadataMap) -> OpenApiFuzzerState {
    OpenApiFuzzerState { metadata: v, ..s }
}

/// `s` with its named registry replaced.
pub open spec fn with_named_metadata(
    s: OpenApiFuzzerState,
    v: NamedMetadataMap,
) -> OpenApiFuzzerState {
    OpenApiFuzzerState { named_metadata: v, ..s }
}

/// `s` with its size bound replaced.
pub open spec fn with_max_size(s: OpenApiFuzzerState, v: usize) -> OpenApiFuzzerState {
    OpenApiFuzzerState { max_size: v, ..s }
}

/// `s` with its last-found time replaced.
pub open spec fn with_last_found_time(s: OpenApiFuzzerState, v: u64) -> OpenApiFuzzerState {
    OpenApiFuzzerState { last_found_time: v, ..s }
}

/// `b` equals `a` in every field except possibly the two metadata
/// registries.
pub open spec fn same_except_registries(a: OpenApiFuzzerState, b: OpenApiFuzzerState) -> bool {
    b == (OpenApiFuzzerState { metadata: b.metadata, named_metadata: b.named_metadata, ..a })
}

/// The shape construction gives a state built from these parts: every field
/// the initializers may not touch is pinned to its initial value.
pub open spec fn construction_shape(
    s: OpenApiFuzzerState,
    rand: RandSource,
    corpus: CorpusStore,
    solutions: CorpusStore,
    api: openapiv3::OpenAPI,
) -> bool {
    &&& s.rand == rand
    &&& s.executions == 0
    &&& !s.stop_requested
    &&& s.start_time == 0
    &&& s.corpus == corpus
    &&& s.solutions == solutions
    &&& s.current_stage is None
    &&& s.current_corpus_id is None
    &&& s.max_size == DEFAULT_MAX_SIZE
    &&& s.last_found_time == 0
    &&& s.api == api
}

/// Hook run once at construction, in the fixed order feedback first, then
/// objective.
///
/// An implementer gets mutable access to the freshly built state so that it
/// can register its own metadata entries; it must leave every other field
/// alone, and a failure aborts construction.
pub trait StateInitializer {
    /// Register this component's metadata entries on the new state.
    fn init_state(&mut self, state: &mut OpenApiFuzzerState) -> (r: Result<(), Error>)
        ensures
            same_except_registries(*old(state), *final(state)),
            old(state).metadata.wf() ==> final(state).metadata.wf(),
            old(state).named_metadata.wf() ==> final(state).named_metadata.wf(),
    ;
}

/// Initializer of a component that keeps no metadata: registers nothing and
/// always succeeds.
pub struct NopInitializer;

impl StateInitializer for NopInitializer {
    fn init_state(&mut self, state: &mut OpenApiFuzzerState) -> (r: Result<(), Error>) {
        Ok(())
    }
}

impl OpenApiFuzzerState {
    /// Validity of the aggregate: both corpora and both registries keep
    /// their invariants.
    pub open spec fn inv(&self) -> bool {
        &&& self.corpus.wf()
        &&& self.solutions.wf()
        &&& self.metadata.wf()
        &&& self.named_metadata.wf()
    }

    /// Create the run state, taking ownership of all of its components.
    ///
    /// Counters and timestamps start at zero, the cursors start unset, a
    /// baseline scheduler-metadata entry is registered, and then the
    /// feedback and objective initializers run, in that order; a failure of
    /// either aborts construction with its error.
    pub fn new<F: StateInitializer, O: StateInitializer>(
        rand: RandSource,
        corpus: CorpusStore,
        solutions: CorpusStore,
        feedback: &mut F,
        objective: &mut O,
        api: openapiv3::OpenAPI,
    ) -> (r: Result<OpenApiFuzzerState, Error>)
        requires
            corpus.wf(),
            solutions.wf(),
        ensures
            r matches Ok(s) ==> construction_shape(s, rand, corpus, solutions, api) && s.inv(),
    {
        let mut state = OpenApiFuzzerState {
            rand,
            executions: 0,
            stop_requested: false,
            start_time: 0,
            corpus,
            solutions,
            current_stage: None,
            current_corpus_id: None,
            metadata: MetadataMap::new(),
            named_metadata: NamedMetadataMap::new(),
            max_size: DEFAULT_MAX_SIZE,
            last_found_time: 0,
            api,
        };
        state.add_metadata(MetadataValue::Scheduler(SchedulerMetadata::new(None)));
        match feedback.init_state(&mut state) {
            Ok(()) => {},
            Err(e) => {
                return Err(e);
            },
        }
        match objective.init_state(&mut state) {
            Ok(()) => Ok(state),
            Err(e) => Err(e),
        }
    }

    /// Store `v` in the type-keyed registry, replacing any value of its
    /// kind.
    pub fn add_metadata(&mut self, v: MetadataValue)
        requires
            old(self).metadata.wf(),
        ensures
            *final(self) == with_metadata(*old(self), final(self).metadata),
            metadata_inserted(old(self).metadata, final(self).metadata, v),
    {
        self.metadata.insert(v);
    }

    /// Begin executing stage `idx` within the current entry.
    pub fn set_current_stage_id(&mut self, idx: StageId) -> (r: Result<(), Error>)
        ensures
            r is Ok,
            *final(self) == with_stage(*old(self), Some(idx)),
    {
        self.current_stage = Some(idx);
        Ok(())
    }

    /// Record that the current stage completed.
    pub fn clear_stage_id(&mut self) -> (r: Result<(), Error>)
        ensures
            r is Ok,
            *final(self) == with_stage(*old(self), None),
    {
        self.current_stage = None;
        Ok(())
    }

    /// The stage currently being executed, if any.
    pub fn current_stage_id(&self) -> (r: Result<Option<StageId>, Error>)
        ensures
            r == Ok::<Option<StageId>, Error>(self.current_stage),
    {
        Ok(self.current_stage)
    }

    /// Begin processing corpus entry `id`.
    pub fn set_corpus_id(&mut self, id: CorpusId) -> (r: Result<(), Error>)
        ensures
            r is Ok,
            *final(self) == with_corpus_id(*old(self), Some(id)),
    {
        self.current_corpus_id = Some(id);
        Ok(())
    }

    /// Record that the current entry's pipeline completed.
    pub fn clear_corpus_id(&mut self) -> (r: Result<(), Error>)
        ensures
            r is Ok,
            *final(self) == with_corpus_id(*old(self), None),
    {
        self.current_corpus_id = None;
        Ok(())
    }

    /// The corpus entry currently being processed, if any.
    pub fn current_corpus_id(&self) -> (r: Result<Option<CorpusId>, Error>)
        ensures
            r == Ok::<Option<CorpusId>, Error>(self.current_corpus_id),
    {
        Ok(self.current_corpus_id)
    }

    /// Whether early termination has been requested.
    pub fn stop_requested(&self) -> (r: bool)
        ensures
            r == self.stop_requested,
    {
        self.stop_requested
    }

    /// Request cooperative early termination of the campaign.
    pub fn request_stop(&mut self)
        ensures
            *final(self) == with_stop(*old(self), true),
    {
        self.stop_requested = true;
    }

    /// Discard a pending termination request.
    pub fn discard_stop_request(&mut self)
        ensures
            *final(self) == with_stop(*old(self), false),
    {
        self.stop_requested = false;
    }

    /// The random source.
    pub fn rand(&self) -> (r: &RandSource)
        ensures
            *r == self.rand,
    {
        &self.rand
    }

    /// The random source, mutably.
    pub fn rand_mut(&mut self) -> (r: &mut RandSource)
        ensures
            *r == old(self).rand,
            *final(self) == with_rand(*old(self), *final(r)),
    {
        &mut self.rand
    }

    /// Shared read access to the corpus entry carrying `id`.
    pub fn testcase(&self, id: CorpusId) -> (r: Result<&Testcase, Error>)
        requires
            self.corpus.wf(),
        ensures
            match r {
                Ok(tc) => self.corpus.spec_slot(id) matches Some(slot)
                    && slot.item == Some(*tc),
                Err(e) => {
                    &&& (e == Error::KeyNotFound || e == Error::BorrowConflict)
                    &&& (e == Error::KeyNotFound <==> self.corpus.spec_slot(id) is None)
                    &&& (e == Error::BorrowConflict <==> (self.corpus.spec_slot(id)
                        matches Some(slot) && slot.item is None))
                },
            },
    {
        self.corpus.get(id)
    }

    /// Exclusive handle to the corpus entry carrying `id`.
    ///
    /// The entry is lent out of the corpus until it is handed back with
    /// [`OpenApiFuzzerState::return_testcase`]; a second request while it is
    /// lent fails fast with `BorrowConflict` instead of yielding a second
    /// live handle.
    pub fn testcase_mut(&mut self, id: CorpusId) -> (r: Result<Testcase, Error>)
        requires
            old(self).corpus.wf(),
        ensures
            *final(self) == with_corpus(*old(self), final(self).corpus),
            final(self).corpus.wf(),
            final(self).corpus.spec_next_id() == old(self).corpus.spec_next_id(),
            match r {
                Ok(tc) => {
                    &&& old(self).corpus.spec_slot(id)
                        == Some(CorpusSlot { id, item: Some(tc) })
                    &&& final(self).corpus.entries() == old(self).corpus.entries().update(
                        crate::corpus::index_of_id(old(self).corpus.entries(), id),
                        (CorpusSlot { id, item: None }),
                    )
                },
                Err(e) => {
                    &&& *final(self) == *old(self)
                    &&& (e == Error::KeyNotFound || e == Error::BorrowConflict)
                    &&& (e == Error::KeyNotFound <==> old(self).corpus.spec_slot(id) is None)
                    &&& (e == Error::BorrowConflict <==> (old(self).corpus.spec_slot(id)
                        matches Some(slot) && slot.item is None))
                },
            },
    {
        self.corpus.checkout(id)
    }

    /// Hand a lent corpus entry back, with any in-place updates applied.
    pub fn return_testcase(&mut self, id: CorpusId, tc: Testcase) -> (r: Result<(), Error>)
        requires
            old(self).corpus.wf(),
        ensures
            *final(self) == with_corpus(*old(self), final(self).corpus),
            final(self).corpus.wf(),
            final(self).corpus.spec_next_id() == old(self).corpus.spec_next_id(),
            match r {
                Ok(()) => {
                    &&& old(self).corpus.spec_slot(id) == Some(CorpusSlot { id, item: None })
                    &&& final(self).corpus.entries() == old(self).corpus.entries().update(
                        crate::corpus::index_of_id(old(self).corpus.entries(), id),
                        (CorpusSlot { id, item: Some(tc) }),
                    )
                },
                Err(e) => {
                    &&& *final(self) == *old(self)
                    &&& (e == Error::KeyNotFound || e == Error::BorrowConflict)
                    &&& (e == Error::KeyNotFound <==> old(self).corpus.spec_slot(id) is None)
                    &&& (e == Error::BorrowConflict <==> (old(self).corpus.spec_slot(id)
                        matches Some(slot) && slot.item is Some))
                },
            },
    {
        self.corpus.checkin(id, tc)
    }

    /// Campaign-relative time of the latest discovery, in milliseconds.
    pub fn last_found_time(&self) -> (r: &u64)
        ensures
            *r == self.last_found_time,
    {
        &self.last_found_time
    }

    /// The latest-discovery time, mutably.
    pub fn last_found_time_mut(&mut self) -> (r: &mut u64)
        ensures
            *r == old(self).last_found_time,
            *final(self) == with_last_found_time(*old(self), *final(r)),
    {
        &mut self.last_found_time
    }

    /// The corpus of interesting inputs.
    pub fn corpus(&self) -> (r: &CorpusStore)
        ensures
            *r == self.corpus,
    {
        &self.corpus
    }

    /// The corpus, mutably.
    pub fn corpus_mut(&mut self) -> (r: &mut CorpusStore)
        ensures
            *r == old(self).corpus,
            *final(self) == with_corpus(*old(self), *final(r)),
    {
        &mut self.corpus
    }

    /// The corpus of objective-satisfying inputs.
    pub fn solutions(&self) -> (r: &CorpusStore)
        ensures
            *r == self.solutions,
    {
        &self.solutions
    }

    /// The solutions corpus, mutably.
    pub fn solutions_mut(&mut self) -> (r: &mut CorpusStore)
        ensures
            *r == old(self).solutions,
            *final(self) == with_solutions(*old(self), *final(r)),
    {
        &mut self.solutions
    }

    /// The type-keyed metadata registry.
    pub fn metadata_map(&self) -> (r: &MetadataMap)
        ensures
            *r == self.metadata,
    {
        &self.metadata
    }

    /// The type-keyed metadata registry, mutably.
    pub fn metadata_map_mut(&mut self) -> (r: &mut MetadataMap)
        ensures
            *r == old(self).metadata,
            *final(self) == with_metadata(*old(self), *final(r)),
    {
        &mut self.metadata
    }

    /// The name-and-type-keyed metadata registry.
    pub fn named_metadata_map(&self) -> (r: &NamedMetadataMap)
        ensures
            *r == self.named_metadata,
    {
        &self.named_metadata
    }

    /// The named metadata registry, mutably.
    pub fn named_metadata_map_mut(&mut self) -> (r: &mut NamedMetadataMap)
        ensures
            *r == old(self).named_metadata,
            *final(self) == with_named_metadata(*old(self), *final(r)),
    {
        &mut self.named_metadata
    }

    /// How many times the executor ran the target.
    pub fn executions(&self) -> (r: &u64)
        ensures
            *r == self.executions,
    {
        &self.executions
    }

    /// The execution counter, mutably.
    pub fn executions_mut(&mut self) -> (r: &mut u64)
        ensures
            *r == old(self).executions,
            *final(self) == with_executions(*old(self), *final(r)),
    {
        &mut self.executions
    }

    /// Configured upper bound on generated input size.
    pub fn max_size(&self) -> (r: usize)
        ensures
            r == self.max_size,
    {
        self.max_size
    }

    /// Reconfigure the upper bound on generated input size.
    pub fn set_max_size(&mut self, max_size: usize)
        ensures
            *final(self) == with_max_size(*old(self), max_size),
    {
        self.max_size = max_size;
    }

    /// Campaign start time, in milliseconds.
    pub fn start_time(&self) -> (r: &u64)
        ensures
            *r == self.start_time,
    {
        &self.start_time
    }

    /// The campaign start time, mutably.
    pub fn start_time_mut(&mut self) -> (r: &mut u64)
        ensures
            *r == old(self).start_time,
            *final(self) == with_start_time(*old(self), *final(r)),
    {
        &mut self.start_time
    }
}

/// Simultaneous mutable access to the random source and shared access to
/// the immutable schema, from one object.
///
/// A mutation component draws entropy while consulting the schema; the
/// schema reference lives exactly as long as the borrow of the random
/// source, and nothing else of the implementer can change meanwhile.
pub trait HasRandAndOpenAPI: Sized {
    /// The random source the implementer owns.
    spec fn spec_rand(&self) -> RandSource;

    /// The schema the implementer owns.
    spec fn spec_api(&self) -> openapiv3::OpenAPI;

    /// `b` equals `a` in everything except possibly the random source.
    spec fn only_rand_differs(a: Self, b: Self) -> bool;

    /// Borrow the random source mutably and the schema immutably, in one
    /// call.  It always succeeds: both fields exist from construction on.
    fn rand_mut_and_openapi(&mut self) -> (r: (&mut RandSource, &openapiv3::OpenAPI))
        ensures
            *r.0 == old(self).spec_rand(),
            *r.1 == old(self).spec_api(),
            final(self).spec_rand() == *final(r.0),
            final(self).spec_api() == old(self).spec_api(),
            Self::only_rand_differs(*old(self), *final(self)),
    ;
}

impl HasRandAndOpenAPI for OpenApiFuzzerState {
    open spec fn spec_rand(&self) -> RandSource {
        self.rand
    }

    open spec fn spec_api(&self) -> openapiv3::OpenAPI {
        self.api
    }

    open spec fn only_rand_differs(a: Self, b: Self) -> bool {
        b == with_rand(a, b.rand)
    }

    fn rand_mut_and_openapi(&mut self) -> (r: (&mut RandSource, &openapiv3::OpenAPI)) {
        (&mut self.rand, &self.api)
    }
}

} // verus!
