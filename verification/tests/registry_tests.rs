use openapi_fuzzer_state::metadata::{
    MetadataKind, MetadataMap, MetadataValue, PowerSchedule, SchedulerMetadata,
};
use openapi_fuzzer_state::named_metadata::NamedMetadataMap;

#[test]
fn get_after_insert_returns_the_inserted_value() {
    let mut map = MetadataMap::new();
    assert_eq!(map.get(MetadataKind::Counters), None);
    map.insert(MetadataValue::Counters(vec![1, 2, 3]));
    assert_eq!(
        map.get(MetadataKind::Counters),
        Some(&MetadataValue::Counters(vec![1, 2, 3]))
    );
    assert!(map.has(MetadataKind::Counters));
    assert!(!map.has(MetadataKind::Note));
}

#[test]
fn insertions_of_distinct_kinds_do_not_disturb_each_other() {
    let mut map = MetadataMap::new();
    map.insert(MetadataValue::Counters(vec![4]));
    map.insert(MetadataValue::Note("weights ready".to_string()));
    map.insert(MetadataValue::Scheduler(SchedulerMetadata::new(Some(
        PowerSchedule::Fast,
    ))));
    assert_eq!(
        map.get(MetadataKind::Counters),
        Some(&MetadataValue::Counters(vec![4]))
    );
    assert_eq!(
        map.get(MetadataKind::Note),
        Some(&MetadataValue::Note("weights ready".to_string()))
    );
    assert_eq!(
        map.get(MetadataKind::Scheduler),
        Some(&MetadataValue::Scheduler(SchedulerMetadata::new(Some(
            PowerSchedule::Fast
        ))))
    );
}

#[test]
fn second_insertion_of_a_kind_fully_replaces_the_first() {
    let mut map = MetadataMap::new();
    map.insert(MetadataValue::Counters(vec![1, 2, 3, 4, 5]));
    map.insert(MetadataValue::Counters(vec![9]));
    assert_eq!(
        map.get(MetadataKind::Counters),
        Some(&MetadataValue::Counters(vec![9]))
    );
}

#[test]
fn get_mut_updates_in_place() {
    let mut map = MetadataMap::new();
    map.insert(MetadataValue::Scheduler(SchedulerMetadata::new(None)));
    match map.get_mut(MetadataKind::Scheduler) {
        MetadataValue::Scheduler(s) => {
            s.cycles += 1;
            s.exec_time_us += 500;
        }
        _ => panic!("wrong kind behind the scheduler key"),
    }
    let expected = SchedulerMetadata {
        strat: None,
        exec_time_us: 500,
        cycles: 1,
        bitmap_size: 0,
        bitmap_entries: 0,
    };
    assert_eq!(
        map.get(MetadataKind::Scheduler),
        Some(&MetadataValue::Scheduler(expected))
    );
}

#[test]
fn remove_leaves_no_residue() {
    let mut map = MetadataMap::new();
    map.insert(MetadataValue::Counters(vec![1]));
    map.insert(MetadataValue::Note("n".to_string()));
    let taken = map.remove(MetadataKind::Counters);
    assert_eq!(taken, Some(MetadataValue::Counters(vec![1])));
    assert_eq!(map.get(MetadataKind::Counters), None);
    assert_eq!(map.remove(MetadataKind::Counters), None);
    assert_eq!(
        map.get(MetadataKind::Note),
        Some(&MetadataValue::Note("n".to_string()))
    );
}

#[test]
fn named_entries_are_keyed_by_name_and_kind() {
    let mut map = NamedMetadataMap::new();
    let alpha = "alpha".to_string();
    let beta = "beta".to_string();
    map.insert(alpha.clone(), MetadataValue::Counters(vec![1]));
    map.insert(beta.clone(), MetadataValue::Counters(vec![2]));
    map.insert(alpha.clone(), MetadataValue::Note("note".to_string()));
    assert_eq!(
        map.get(&alpha, MetadataKind::Counters),
        Some(&MetadataValue::Counters(vec![1]))
    );
    assert_eq!(
        map.get(&beta, MetadataKind::Counters),
        Some(&MetadataValue::Counters(vec![2]))
    );
    assert_eq!(
        map.get(&alpha, MetadataKind::Note),
        Some(&MetadataValue::Note("note".to_string()))
    );
    assert_eq!(map.get(&beta, MetadataKind::Note), None);
    assert!(map.has(&alpha, MetadataKind::Counters));
    assert!(!map.has(&"gamma".to_string(), MetadataKind::Counters));
}

#[test]
fn named_insertion_replaces_only_its_own_key() {
    let mut map = NamedMetadataMap::new();
    let name = "weights".to_string();
    map.insert(name.clone(), MetadataValue::Counters(vec![1, 2]));
    map.insert(name.clone(), MetadataValue::Counters(vec![3]));
    assert_eq!(
        map.get(&name, MetadataKind::Counters),
        Some(&MetadataValue::Counters(vec![3]))
    );
    let removed = map.remove(&name, MetadataKind::Counters);
    assert_eq!(removed, Some(MetadataValue::Counters(vec![3])));
    assert_eq!(map.get(&name, MetadataKind::Counters), None);
}
