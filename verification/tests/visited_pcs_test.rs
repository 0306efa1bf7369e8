use blockifier::state::ClassHash;
use blockifier::state::StateStore;
use blockifier::visited_pcs::VisitedPcs;
use blockifier::visited_pcs::VisitedPcsRaw;
use blockifier::visited_pcs::VisitedPcsSet;

fn sorted(mut v: Vec<usize>) -> Vec<usize> {
    v.sort();
    v
}

#[test]
fn insert_deduplicates_within_and_across_calls() {
    let mut tracker = VisitedPcsSet::new();
    let class = ClassHash(7);
    tracker.insert(&class, &vec![10, 20]);
    tracker.insert(&class, &vec![20, 30]);
    let entries = tracker.iter();
    assert_eq!(entries.len(), 1);
    assert_eq!(entries[0].class_hash, class);
    assert_eq!(sorted(entries[0].pcs.clone()), vec![10, 20, 30]);
}

#[test]
fn insert_keeps_classes_disjoint() {
    let mut tracker = VisitedPcsSet::new();
    let first = ClassHash(1);
    let second = ClassHash(2);
    tracker.insert(&first, &vec![10, 20]);
    tracker.insert(&second, &vec![20, 30]);
    let entries = tracker.iter();
    assert_eq!(entries.len(), 2);
    let first_entry = entries.iter().find(|e| e.class_hash == first).unwrap();
    let second_entry = entries.iter().find(|e| e.class_hash == second).unwrap();
    assert_eq!(sorted(first_entry.pcs.clone()), vec![10, 20]);
    assert_eq!(sorted(second_entry.pcs.clone()), vec![20, 30]);
}

#[test]
fn insert_batch_with_duplicates_records_each_counter_once() {
    let mut tracker = VisitedPcsSet::new();
    let class = ClassHash(9);
    tracker.insert(&class, &vec![5, 5, 5, 6]);
    let entries = tracker.iter();
    assert_eq!(sorted(entries[0].pcs.clone()), vec![5, 6]);
}

#[test]
fn extend_merges_another_record() {
    let mut tracker = VisitedPcsSet::new();
    let class = ClassHash(3);
    tracker.insert(&class, &vec![1, 2]);
    tracker.extend(&class, &vec![2, 3, 4]);
    let entries = tracker.iter();
    assert_eq!(sorted(entries[0].pcs.clone()), vec![1, 2, 3, 4]);
}

#[test]
fn entry_creates_an_empty_record_once() {
    let mut tracker = VisitedPcsSet::new();
    let class = ClassHash(11);
    let idx = tracker.entry(class);
    assert_eq!(tracker.iter()[idx].class_hash, class);
    assert!(tracker.iter()[idx].pcs.is_empty());
    let again = tracker.entry(class);
    assert_eq!(idx, again);
    assert_eq!(tracker.iter().len(), 1);
}

#[test]
fn to_set_removes_duplicates() {
    let deduplicated = VisitedPcsSet::to_set(vec![4, 4, 2, 4, 2]);
    assert_eq!(sorted(deduplicated), vec![2, 4]);
}

#[test]
fn raw_tracker_keeps_one_entry_per_recorded_counter() {
    let mut tracker: VisitedPcsRaw = VisitedPcs::new();
    let class = ClassHash(7);
    VisitedPcs::insert(&mut tracker, &class, &vec![10, 20]);
    VisitedPcs::insert(&mut tracker, &class, &vec![20, 30]);
    assert_eq!(tracker.entries.len(), 1);
    assert_eq!(tracker.entries[0].pcs, vec![10, 20, 20, 30]);
    // The deduplicated view of the raw record is still the union.
    let deduplicated = <VisitedPcsRaw as VisitedPcs>::to_set(tracker.entries[0].pcs.clone());
    assert_eq!(sorted(deduplicated), vec![10, 20, 30]);
}

#[test]
fn raw_tracker_keeps_classes_disjoint() {
    let mut tracker: VisitedPcsRaw = VisitedPcs::new();
    VisitedPcs::insert(&mut tracker, &ClassHash(1), &vec![10]);
    VisitedPcs::insert(&mut tracker, &ClassHash(2), &vec![20]);
    assert_eq!(tracker.entries.len(), 2);
    let first = tracker.entries.iter().find(|e| e.class_hash == ClassHash(1)).unwrap();
    let second = tracker.entries.iter().find(|e| e.class_hash == ClassHash(2)).unwrap();
    assert_eq!(first.pcs, vec![10]);
    assert_eq!(second.pcs, vec![20]);
}

#[test]
fn add_visited_pcs_merges_into_the_state_store() {
    let mut state = StateStore::new();
    let class = ClassHash(21);
    VisitedPcsSet::add_visited_pcs(&mut state, &class, vec![100, 200]);
    VisitedPcsSet::add_visited_pcs(&mut state, &class, vec![200, 300]);
    let entries = state.visited_pcs.iter();
    assert_eq!(entries.len(), 1);
    assert_eq!(sorted(entries[0].pcs.clone()), vec![100, 200, 300]);
}
