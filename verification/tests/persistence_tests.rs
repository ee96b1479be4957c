use openapi_fuzzer_state::corpus::{CorpusStore, Testcase};
use openapi_fuzzer_state::ids::CorpusId;
use openapi_fuzzer_state::metadata::{
    MetadataKind, MetadataMap, MetadataValue, PowerSchedule, SchedulerMetadata,
};
use openapi_fuzzer_state::named_metadata::NamedMetadataMap;
use openapi_fuzzer_state::rand_source::RandSource;
use openapi_fuzzer_state::state::{NopInitializer, OpenApiFuzzerState};
use serde_json::Value;

fn opt_u64_to_json(v: Option<u64>) -> Value {
    match v {
        Some(x) => Value::from(x),
        None => Value::Null,
    }
}

fn opt_u64_from_json(v: &Value) -> Option<u64> {
    if v.is_null() {
        None
    } else {
        Some(v.as_u64().unwrap())
    }
}

fn testcase_to_json(tc: &Testcase) -> Value {
    let bytes: Vec<Value> = tc.input.iter().map(|b| Value::from(*b as u64)).collect();
    Value::Array(vec![
        Value::Array(bytes),
        Value::from(tc.found_time),
        opt_u64_to_json(tc.parent.map(|p| p.0)),
        Value::from(tc.scheduled_count),
    ])
}

fn testcase_from_json(v: &Value) -> Testcase {
    let parts = v.as_array().unwrap();
    let input: Vec<u8> = parts[0]
        .as_array()
        .unwrap()
        .iter()
        .map(|b| b.as_u64().unwrap() as u8)
        .collect();
    Testcase {
        input,
        found_time: parts[1].as_u64().unwrap(),
        parent: opt_u64_from_json(&parts[2]).map(CorpusId),
        scheduled_count: parts[3].as_u64().unwrap(),
    }
}

fn corpus_to_json(store: &CorpusStore) -> Value {
    let mut slots: Vec<Value> = Vec::new();
    for id in store.ids() {
        let item = match store.get(id) {
            Ok(tc) => testcase_to_json(tc),
            Err(_) => Value::Null,
        };
        slots.push(Value::Array(vec![Value::from(id.0), item]));
    }
    Value::Array(vec![Value::Array(slots), Value::from(store.peek_free_id().0)])
}

fn corpus_from_json(v: &Value) -> CorpusStore {
    let parts = v.as_array().unwrap();
    let mut store = CorpusStore::new();
    for slot in parts[0].as_array().unwrap() {
        let pair = slot.as_array().unwrap();
        let id = CorpusId(pair[0].as_u64().unwrap());
        assert!(id.0 >= store.peek_free_id().0, "slots must replay in id order");
        let item = if pair[1].is_null() {
            None
        } else {
            Some(testcase_from_json(&pair[1]))
        };
        store.restore_slot(id, item);
    }
    assert_eq!(store.peek_free_id().0, parts[1].as_u64().unwrap());
    store
}

fn metadata_value_to_json(v: &MetadataValue) -> Value {
    match v {
        MetadataValue::Scheduler(s) => {
            let strat = match s.strat {
                None => Value::Null,
                Some(PowerSchedule::Explore) => Value::from(0u64),
                Some(PowerSchedule::Exploit) => Value::from(1u64),
                Some(PowerSchedule::Fast) => Value::from(2u64),
                Some(PowerSchedule::Coe) => Value::from(3u64),
                Some(PowerSchedule::Lin) => Value::from(4u64),
                Some(PowerSchedule::Quad) => Value::from(5u64),
            };
            Value::Array(vec![
                Value::from(0u64),
                strat,
                Value::from(s.exec_time_us),
                Value::from(s.cycles),
                Value::from(s.bitmap_size),
                Value::from(s.bitmap_entries),
            ])
        }
        MetadataValue::Counters(c) => {
            let nums: Vec<Value> = c.iter().map(|x| Value::from(*x)).collect();
            Value::Array(vec![Value::from(1u64), Value::Array(nums)])
        }
        MetadataValue::Note(n) => {
            Value::Array(vec![Value::from(2u64), Value::String(n.clone())])
        }
    }
}

fn metadata_value_from_json(v: &Value) -> MetadataValue {
    let parts = v.as_array().unwrap();
    match parts[0].as_u64().unwrap() {
        0 => {
            let strat = match opt_u64_from_json(&parts[1]) {
                None => None,
                Some(0) => Some(PowerSchedule::Explore),
                Some(1) => Some(PowerSchedule::Exploit),
                Some(2) => Some(PowerSchedule::Fast),
                Some(3) => Some(PowerSchedule::Coe),
                Some(4) => Some(PowerSchedule::Lin),
                Some(_) => Some(PowerSchedule::Quad),
            };
            MetadataValue::Scheduler(SchedulerMetadata {
                strat,
                exec_time_us: parts[2].as_u64().unwrap(),
                cycles: parts[3].as_u64().unwrap(),
                bitmap_size: parts[4].as_u64().unwrap(),
                bitmap_entries: parts[5].as_u64().unwrap(),
            })
        }
        1 => {
            let nums: Vec<u64> = parts[1]
                .as_array()
                .unwrap()
                .iter()
                .map(|x| x.as_u64().unwrap())
                .collect();
            MetadataValue::Counters(nums)
        }
        _ => MetadataValue::Note(parts[1].as_str().unwrap().to_string()),
    }
}

/// Serializes the registry by probing each member of the closed kind set,
/// in a fixed order.
fn metadata_to_json(map: &MetadataMap) -> Value {
    let kinds = [
        MetadataKind::Scheduler,
        MetadataKind::Counters,
        MetadataKind::Note,
    ];
    let mut entries: Vec<Value> = Vec::new();
    for k in kinds {
        if let Some(v) = map.get(k) {
            entries.push(metadata_value_to_json(v));
        }
    }
    Value::Array(entries)
}

fn metadata_from_json(v: &Value) -> MetadataMap {
    let mut map = MetadataMap::new();
    for entry in v.as_array().unwrap() {
        map.insert(metadata_value_from_json(entry));
    }
    map
}

fn state_to_json(s: &OpenApiFuzzerState) -> Value {
    Value::Array(vec![
        Value::from(s.rand.state),
        Value::from(s.executions),
        Value::Bool(s.stop_requested),
        Value::from(s.start_time),
        corpus_to_json(&s.corpus),
        corpus_to_json(&s.solutions),
        opt_u64_to_json(s.current_stage.map(|x| x.0)),
        opt_u64_to_json(s.current_corpus_id.map(|x| x.0)),
        metadata_to_json(&s.metadata),
        Value::from(s.max_size as u64),
        Value::from(s.last_found_time),
        serde_json::to_value(&s.api).unwrap(),
    ])
}

fn state_from_json(v: &Value) -> OpenApiFuzzerState {
    let parts = v.as_array().unwrap();
    let api: openapiv3::OpenAPI = serde_json::from_value(parts[11].clone()).unwrap();
    let mut feedback = NopInitializer;
    let mut objective = NopInitializer;
    let mut s = OpenApiFuzzerState::new(
        RandSource::with_seed(0),
        CorpusStore::new(),
        CorpusStore::new(),
        &mut feedback,
        &mut objective,
        api,
    )
    .unwrap();
    s.rand = RandSource { state: parts[0].as_u64().unwrap() };
    s.executions = parts[1].as_u64().unwrap();
    s.stop_requested = parts[2].as_bool().unwrap();
    s.start_time = parts[3].as_u64().unwrap();
    s.corpus = corpus_from_json(&parts[4]);
    s.solutions = corpus_from_json(&parts[5]);
    s.current_stage = opt_u64_from_json(&parts[6]).map(openapi_fuzzer_state::ids::StageId);
    s.current_corpus_id = opt_u64_from_json(&parts[7]).map(CorpusId);
    s.metadata = metadata_from_json(&parts[8]);
    s.named_metadata = NamedMetadataMap::new();
    s.max_size = parts[9].as_u64().unwrap() as usize;
    s.last_found_time = parts[10].as_u64().unwrap();
    s
}

#[test]
fn scenario_d_populated_state_round_trips_field_for_field() {
    let mut feedback = NopInitializer;
    let mut objective = NopInitializer;
    let mut state = OpenApiFuzzerState::new(
        RandSource::with_seed(42),
        CorpusStore::new(),
        CorpusStore::new(),
        &mut feedback,
        &mut objective,
        openapiv3::OpenAPI::default(),
    )
    .unwrap();
    let id0 = state.corpus_mut().add(Testcase::new(vec![1, 2]));
    let _id1 = state.corpus_mut().add(Testcase {
        input: vec![3],
        found_time: 77,
        parent: Some(id0),
        scheduled_count: 2,
    });
    state.corpus_mut().add(Testcase::new(vec![4, 5, 6]));
    state.add_metadata(MetadataValue::Counters(vec![10, 20]));
    state.set_corpus_id(id0).unwrap();
    *state.executions_mut() = 31;
    *state.last_found_time_mut() = 456;

    let text = serde_json::to_string(&state_to_json(&state)).unwrap();
    let parsed: Value = serde_json::from_str(&text).unwrap();
    let restored = state_from_json(&parsed);
    assert_eq!(restored, state);
}

#[test]
fn cursor_value_survives_the_round_trip() {
    let mut feedback = NopInitializer;
    let mut objective = NopInitializer;
    let mut state = OpenApiFuzzerState::new(
        RandSource::with_seed(1),
        CorpusStore::new(),
        CorpusStore::new(),
        &mut feedback,
        &mut objective,
        openapiv3::OpenAPI::default(),
    )
    .unwrap();
    state.corpus_mut().add(Testcase::new(vec![1]));
    let id = state.corpus_mut().add(Testcase::new(vec![2]));
    state.set_corpus_id(id).unwrap();
    state.set_current_stage_id(openapi_fuzzer_state::ids::StageId(4)).unwrap();

    let text = serde_json::to_string(&state_to_json(&state)).unwrap();
    let parsed: Value = serde_json::from_str(&text).unwrap();
    let restored = state_from_json(&parsed);
    assert_eq!(restored.current_corpus_id().unwrap(), Some(id));
    assert_eq!(
        restored.current_stage_id().unwrap(),
        Some(openapi_fuzzer_state::ids::StageId(4))
    );
}

#[test]
fn lent_entries_round_trip_as_lent() {
    let mut store = CorpusStore::new();
    let id = store.add(Testcase::new(vec![5]));
    store.checkout(id).unwrap();
    let v = corpus_to_json(&store);
    let restored = corpus_from_json(&v);
    assert_eq!(restored, store);
}
