use vectors::msg::{IndexOptions, IndexStat, OpError};
use vectors::worker::{all_accept, Worker};

#[test]
fn candidates_come_in_record_order() {
    let mut w = Worker::new();
    w.call_create(5, IndexOptions { dim: 1 });
    assert_eq!(w.call_insert(5, vec![10]), Ok(()));
    assert_eq!(w.call_insert(5, vec![20]), Ok(()));
    assert_eq!(w.call_insert(5, vec![30]), Ok(()));
    assert_eq!(w.candidates(5), Ok(vec![0, 1, 2]));
    assert_eq!(w.candidates(6), Err(OpError::UnknownIndex));
}

#[test]
fn apply_delete_counts_accepted_answers() {
    let mut w = Worker::new();
    w.call_create(5, IndexOptions { dim: 1 });
    assert_eq!(w.call_insert(5, vec![10]), Ok(()));
    assert_eq!(w.call_insert(5, vec![20]), Ok(()));
    assert_eq!(w.call_insert(5, vec![30]), Ok(()));
    let answers = vec![true, false, true];
    assert_eq!(w.apply_delete(5, &answers), 2);
    assert_eq!(w.call_stat(5), Ok(IndexStat { count: 1, dim: 1 }));
    assert_eq!(w.candidates(5), Ok(vec![1]));
}

#[test]
fn handles_are_not_reused_after_deletion() {
    let mut w = Worker::new();
    w.call_create(5, IndexOptions { dim: 1 });
    assert_eq!(w.call_insert(5, vec![10]), Ok(()));
    let answers = vec![true];
    assert_eq!(w.apply_delete(5, &answers), 1);
    assert_eq!(w.call_insert(5, vec![20]), Ok(()));
    assert_eq!(w.candidates(5), Ok(vec![1]));
}

#[test]
fn finish_search_ranks_accepted_records_by_distance() {
    let mut w = Worker::new();
    w.call_create(5, IndexOptions { dim: 2 });
    assert_eq!(w.call_insert(5, vec![8, 8]), Ok(()));
    assert_eq!(w.call_insert(5, vec![1, 1]), Ok(()));
    assert_eq!(w.call_insert(5, vec![4, 4]), Ok(()));
    let query = vec![0, 0];
    let answers = all_accept(3);
    assert_eq!(w.finish_search(5, &query, &answers), vec![1, 2, 0]);
    let pick = vec![true, false, true];
    assert_eq!(w.finish_search(5, &query, &pick), vec![2, 0]);
}

#[test]
fn vbase_iterator_yields_ranked_items_then_sentinels() {
    let mut w = Worker::new();
    w.call_create(5, IndexOptions { dim: 1 });
    assert_eq!(w.call_insert(5, vec![7]), Ok(()));
    assert_eq!(w.call_insert(5, vec![3]), Ok(()));
    let query = vec![2];
    let mut it = w.vbase_open(5, &query).unwrap();
    assert_eq!(it.next(), Some(1));
    assert_eq!(it.next(), Some(0));
    assert_eq!(it.next(), None);
    assert_eq!(it.next(), None);
}

#[test]
fn vbase_open_reports_each_failure() {
    let mut w = Worker::new();
    w.call_create(5, IndexOptions { dim: 2 });
    let query = vec![1];
    assert!(matches!(w.vbase_open(6, &query), Err(OpError::UnknownIndex)));
    assert!(matches!(w.vbase_open(5, &query), Err(OpError::WrongDimension)));
}

#[test]
fn flush_reports_presence() {
    let mut w = Worker::new();
    w.call_create(5, IndexOptions { dim: 2 });
    assert_eq!(w.call_flush(5), Ok(()));
    assert_eq!(w.call_flush(6), Err(OpError::UnknownIndex));
}

#[test]
fn destroy_ignores_absent_identifiers() {
    let mut w = Worker::new();
    w.call_create(1, IndexOptions { dim: 1 });
    w.call_create(2, IndexOptions { dim: 1 });
    let ids = vec![2, 9];
    w.call_destroy(&ids);
    assert_eq!(w.call_stat(1), Ok(IndexStat { count: 0, dim: 1 }));
    assert_eq!(w.call_stat(2), Err(OpError::UnknownIndex));
}

#[test]
fn distance_uses_absolute_component_differences() {
    let mut w = Worker::new();
    w.call_create(5, IndexOptions { dim: 2 });
    // distances to the query (6, 0): 8, 2, 10
    assert_eq!(w.call_insert(5, vec![0, 2]), Ok(()));
    assert_eq!(w.call_insert(5, vec![7, 1]), Ok(()));
    assert_eq!(w.call_insert(5, vec![16, 0]), Ok(()));
    let query = vec![6, 0];
    let answers = all_accept(3);
    assert_eq!(w.finish_search(5, &query, &answers), vec![1, 0, 2]);
}
