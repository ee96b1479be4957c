use openapi_fuzzer_state::corpus::{CorpusStore, Testcase};
use openapi_fuzzer_state::errors::Error;
use openapi_fuzzer_state::ids::{CorpusId, StageId};
use openapi_fuzzer_state::metadata::{MetadataKind, MetadataValue, SchedulerMetadata};
use openapi_fuzzer_state::rand_source::RandSource;
use openapi_fuzzer_state::state::{
    HasRandAndOpenAPI, NopInitializer, OpenApiFuzzerState, StateInitializer, DEFAULT_MAX_SIZE,
};

fn fresh_state() -> OpenApiFuzzerState {
    let mut feedback = NopInitializer;
    let mut objective = NopInitializer;
    OpenApiFuzzerState::new(
        RandSource::with_seed(42),
        CorpusStore::new(),
        CorpusStore::new(),
        &mut feedback,
        &mut objective,
        openapiv3::OpenAPI::default(),
    )
    .unwrap()
}

#[test]
fn scenario_a_fresh_construction() {
    let state = fresh_state();
    assert_eq!(*state.executions(), 0);
    assert!(!state.stop_requested());
    assert_eq!(state.current_corpus_id().unwrap(), None);
    assert_eq!(state.current_stage_id().unwrap(), None);
    assert_eq!(*state.start_time(), 0);
    assert_eq!(*state.last_found_time(), 0);
    assert_eq!(state.max_size(), DEFAULT_MAX_SIZE);
    assert_eq!(state.corpus().count(), 0);
    assert_eq!(state.solutions().count(), 0);
}

#[test]
fn construction_registers_scheduler_metadata() {
    let state = fresh_state();
    let entry = state.metadata_map().get(MetadataKind::Scheduler);
    assert_eq!(
        entry,
        Some(&MetadataValue::Scheduler(SchedulerMetadata::new(None)))
    );
}

#[test]
fn construction_is_idempotent_in_shape() {
    let s1 = fresh_state();
    let s2 = fresh_state();
    assert_eq!(s1, s2);
}

struct FailingInitializer;

impl StateInitializer for FailingInitializer {
    fn init_state(&mut self, _state: &mut OpenApiFuzzerState) -> Result<(), Error> {
        Err(Error::InitFailed)
    }
}

#[test]
fn failing_feedback_initializer_aborts_construction() {
    let mut feedback = FailingInitializer;
    let mut objective = NopInitializer;
    let r = OpenApiFuzzerState::new(
        RandSource::with_seed(42),
        CorpusStore::new(),
        CorpusStore::new(),
        &mut feedback,
        &mut objective,
        openapiv3::OpenAPI::default(),
    );
    assert_eq!(r.unwrap_err(), Error::InitFailed);
}

#[test]
fn scenario_b_cursor_over_two_entries() {
    let mut state = fresh_state();
    let id0 = state.corpus_mut().add(Testcase::new(vec![1, 2, 3]));
    let id1 = state.corpus_mut().add(Testcase::new(vec![4, 5, 6]));
    state.set_corpus_id(id0).unwrap();
    assert_eq!(state.current_corpus_id().unwrap(), Some(id0));
    state.set_corpus_id(id1).unwrap();
    assert_eq!(state.current_corpus_id().unwrap(), Some(id1));
    state.clear_corpus_id().unwrap();
    assert_eq!(state.current_corpus_id().unwrap(), None);
    assert_eq!(state.corpus().count(), 2);
}

#[test]
fn scenario_c_double_mutable_borrow_fails_fast() {
    let mut state = fresh_state();
    state.corpus_mut().add(Testcase::new(vec![0]));
    let id1 = state.corpus_mut().add(Testcase::new(vec![7, 8]));
    let handle = state.testcase_mut(id1).unwrap();
    assert_eq!(handle.input, vec![7, 8]);
    let second = state.testcase_mut(id1);
    assert_eq!(second.unwrap_err(), Error::BorrowConflict);
    state.return_testcase(id1, handle).unwrap();
    let third = state.testcase_mut(id1);
    assert!(third.is_ok());
}

#[test]
fn stage_cursor_round_trip() {
    let mut state = fresh_state();
    state.set_current_stage_id(StageId(3)).unwrap();
    assert_eq!(state.current_stage_id().unwrap(), Some(StageId(3)));
    state.clear_stage_id().unwrap();
    assert_eq!(state.current_stage_id().unwrap(), None);
}

#[test]
fn scenario_dual_access_many_sequential_calls() {
    let mut state = fresh_state();
    let api_copy = openapiv3::OpenAPI::default();
    let mut draws: Vec<u64> = Vec::new();
    for _ in 0..16 {
        let (rng, api) = state.rand_mut_and_openapi();
        draws.push(rng.next_u64());
        assert_eq!(*api, api_copy);
    }
    let mut reference = RandSource::with_seed(42);
    for d in draws {
        assert_eq!(d, reference.next_u64());
    }
    assert_eq!(*state.executions(), 0);
    assert!(!state.stop_requested());
    assert_eq!(state.max_size(), DEFAULT_MAX_SIZE);
}

#[test]
fn rand_streams_are_deterministic_per_seed() {
    let mut a = RandSource::with_seed(7);
    let mut b = RandSource::with_seed(7);
    for _ in 0..8 {
        assert_eq!(a.next_u64(), b.next_u64());
    }
    let mut c = RandSource::with_seed(8);
    assert_ne!(a.next_u64(), c.next_u64());
    let mut d = RandSource::with_seed(9);
    d.set_seed(7);
    let mut e = RandSource::with_seed(7);
    assert_eq!(d.next_u64(), e.next_u64());
}

#[test]
fn stop_flag_is_sticky_until_discarded() {
    let mut state = fresh_state();
    state.request_stop();
    assert!(state.stop_requested());
    state.request_stop();
    assert!(state.stop_requested());
    state.discard_stop_request();
    assert!(!state.stop_requested());
}

#[test]
fn counter_and_time_accessors_project_their_fields() {
    let mut state = fresh_state();
    *state.executions_mut() += 5;
    assert_eq!(*state.executions(), 5);
    *state.last_found_time_mut() = 1234;
    assert_eq!(*state.last_found_time(), 1234);
    *state.start_time_mut() = 99;
    assert_eq!(*state.start_time(), 99);
    state.set_max_size(4096);
    assert_eq!(state.max_size(), 4096);
    state.set_max_size(usize::MAX);
    assert_eq!(state.max_size(), usize::MAX);
    let before = state.rand().state;
    state.rand_mut().next_u64();
    assert_ne!(state.rand().state, before);
}

#[test]
fn corpus_lookup_errors_name_their_cause() {
    let mut state = fresh_state();
    assert_eq!(state.testcase(CorpusId(0)).unwrap_err(), Error::KeyNotFound);
    let id = state.corpus_mut().add(Testcase::new(vec![9]));
    assert_eq!(state.testcase(id).unwrap().input, vec![9]);
    let held = state.testcase_mut(id).unwrap();
    assert_eq!(state.testcase(id).unwrap_err(), Error::BorrowConflict);
    assert_eq!(
        state.return_testcase(CorpusId(55), held.clone()).unwrap_err(),
        Error::KeyNotFound
    );
    state.return_testcase(id, held).unwrap();
    assert_eq!(
        state.return_testcase(id, Testcase::new(vec![])).unwrap_err(),
        Error::BorrowConflict
    );
}

#[test]
fn removed_identifiers_are_never_reused() {
    let mut state = fresh_state();
    let id0 = state.corpus_mut().add(Testcase::new(vec![1]));
    let id1 = state.corpus_mut().add(Testcase::new(vec![2]));
    let removed = state.corpus_mut().remove(id0).unwrap();
    assert_eq!(removed.input, vec![1]);
    assert_eq!(state.corpus().count(), 1);
    let id2 = state.corpus_mut().add(Testcase::new(vec![3]));
    assert_ne!(id2, id0);
    assert_ne!(id2, id1);
    assert_eq!(state.corpus_mut().remove(id0).unwrap_err(), Error::KeyNotFound);
    assert_eq!(state.corpus().ids(), vec![id1, id2]);
}

#[test]
fn solutions_store_is_independent_of_corpus() {
    let mut state = fresh_state();
    state.corpus_mut().add(Testcase::new(vec![1]));
    let sid = state.solutions_mut().add(Testcase::new(vec![250]));
    assert_eq!(state.solutions().count(), 1);
    assert_eq!(state.corpus().count(), 1);
    assert_eq!(state.solutions().get(sid).unwrap().input, vec![250]);
}
