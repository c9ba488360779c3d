use sqlite_vector_store::ingest::{
    find_invalid, IngestAction, IngestError, IngestEvent, IngestPhase, IngestSession,
};
use sqlite_vector_store::query::{Bind, Query};
use sqlite_vector_store::schema::Store;
use sqlite_vector_store::search::{Document, JsonKind};

fn docs() -> Store {
    Store::new("docs".to_string(), 3).unwrap()
}

fn text(s: &str) -> String {
    s.to_string()
}

fn doc(content: &str, metadata: &str) -> Document<()> {
    Document { page_content: text(content), metadata: text(metadata), score: () }
}

fn cat_and_car() -> Vec<Document<()>> {
    vec![doc("cat", "{\"type\":\"animal\"}"), doc("car", "{\"type\":\"vehicle\"}")]
}

fn inserting(total: usize, done: &[i64]) -> IngestSession {
    let mut s = IngestSession::new(total, 3);
    s.advance(IngestEvent::Embedded(vec![3; total]));
    s.advance(IngestEvent::TransactionOpened);
    for id in done {
        s.advance(IngestEvent::RowInserted(*id));
    }
    s
}

#[test]
fn cat_and_car_are_stored() {
    let mut s = docs().begin_ingest(&cat_and_car()).unwrap();
    assert_eq!(s.action(), IngestAction::Embed);
    s.advance(IngestEvent::Embedded(vec![3, 3]));
    assert_eq!(s.action(), IngestAction::Begin);
    s.advance(IngestEvent::TransactionOpened);
    assert_eq!(s.action(), IngestAction::Insert(0));
    s.advance(IngestEvent::RowInserted(1));
    assert_eq!(s.action(), IngestAction::Insert(1));
    s.advance(IngestEvent::RowInserted(2));
    assert_eq!(s.action(), IngestAction::Commit);
    s.advance(IngestEvent::Committed);
    assert_eq!(s.action(), IngestAction::Finish(vec![text("1"), text("2")]));
    assert_eq!(s.phase(), IngestPhase::Finished);
}

#[test]
fn ids_come_back_in_input_order() {
    let mut s = inserting(3, &[41, 7, -5]);
    assert_eq!(s.action(), IngestAction::Commit);
    s.advance(IngestEvent::Committed);
    assert_eq!(s.action(), IngestAction::Finish(vec![text("41"), text("7"), text("-5")]));
}

#[test]
fn a_finished_session_stays_finished() {
    let mut s = inserting(1, &[9]);
    s.advance(IngestEvent::Committed);
    for event in [
        IngestEvent::StorageFailed,
        IngestEvent::RowInserted(10),
        IngestEvent::Committed,
        IngestEvent::RolledBack,
        IngestEvent::Embedded(vec![1]),
    ] {
        s.advance(event);
        assert_eq!(s.action(), IngestAction::Finish(vec![text("9")]));
    }
}

#[test]
fn an_empty_batch_is_committed_empty() {
    let mut s = docs().begin_ingest::<()>(&vec![]).unwrap();
    assert_eq!(s.action(), IngestAction::Embed);
    s.advance(IngestEvent::Embedded(vec![]));
    assert_eq!(s.action(), IngestAction::Begin);
    s.advance(IngestEvent::TransactionOpened);
    assert_eq!(s.action(), IngestAction::Commit);
    s.advance(IngestEvent::Committed);
    assert_eq!(s.action(), IngestAction::Finish(vec![]));
}

#[test]
fn a_missing_vector_fails_the_batch() {
    let mut s = IngestSession::new(2, 3);
    s.advance(IngestEvent::Embedded(vec![3]));
    assert_eq!(s.action(), IngestAction::Fail(IngestError::EmbeddingCountMismatch));
    assert_eq!(s.phase(), IngestPhase::Failed(IngestError::EmbeddingCountMismatch));
}

#[test]
fn a_vector_too_many_fails_the_batch() {
    let mut s = IngestSession::new(2, 3);
    s.advance(IngestEvent::Embedded(vec![3, 3, 3]));
    assert_eq!(s.action(), IngestAction::Fail(IngestError::EmbeddingCountMismatch));
}

#[test]
fn a_vector_of_the_wrong_length_fails_the_batch() {
    for lengths in [vec![3, 4], vec![2, 3], vec![0, 0], vec![3, usize::MAX]] {
        let mut s = IngestSession::new(2, 3);
        s.advance(IngestEvent::Embedded(lengths));
        assert_eq!(s.action(), IngestAction::Fail(IngestError::DimensionMismatch));
    }
}

#[test]
fn a_wrong_count_is_reported_before_a_wrong_length() {
    let mut s = IngestSession::new(2, 3);
    s.advance(IngestEvent::Embedded(vec![4]));
    assert_eq!(s.action(), IngestAction::Fail(IngestError::EmbeddingCountMismatch));
}

#[test]
fn refused_vectors_never_reach_the_storage() {
    let mut s = IngestSession::new(2, 3);
    s.advance(IngestEvent::Embedded(vec![3, 5]));
    for event in [
        IngestEvent::TransactionOpened,
        IngestEvent::RowInserted(1),
        IngestEvent::RowInserted(2),
        IngestEvent::Committed,
        IngestEvent::Embedded(vec![3, 3]),
    ] {
        s.advance(event);
        assert_eq!(s.action(), IngestAction::Fail(IngestError::DimensionMismatch));
    }
}

#[test]
fn a_failing_embedder_fails_the_batch() {
    let mut s = IngestSession::new(2, 3);
    s.advance(IngestEvent::EmbeddingFailed);
    assert_eq!(s.action(), IngestAction::Fail(IngestError::EmbeddingFailed));
}

#[test]
fn a_transaction_that_does_not_open_fails_the_batch() {
    let mut s = IngestSession::new(2, 3);
    s.advance(IngestEvent::Embedded(vec![3, 3]));
    s.advance(IngestEvent::StorageFailed);
    assert_eq!(s.action(), IngestAction::Fail(IngestError::StorageFailed));
}

#[test]
fn a_failure_after_some_rows_rolls_everything_back() {
    for done in 0..4usize {
        let ids: Vec<i64> = (1..=done as i64).collect();
        let mut s = inserting(4, &ids);
        assert_eq!(s.action(), IngestAction::Insert(done));
        s.advance(IngestEvent::StorageFailed);
        assert_eq!(s.action(), IngestAction::Rollback);
        assert_eq!(s.phase(), IngestPhase::RollingBack(IngestError::StorageFailed));
        s.advance(IngestEvent::RolledBack);
        assert_eq!(s.action(), IngestAction::Fail(IngestError::StorageFailed));
    }
}

#[test]
fn nothing_is_committed_after_a_failure() {
    let mut s = inserting(2, &[1]);
    s.advance(IngestEvent::StorageFailed);
    s.advance(IngestEvent::RowInserted(2));
    assert_eq!(s.action(), IngestAction::Fail(IngestError::StorageFailed));
    s.advance(IngestEvent::Committed);
    assert_eq!(s.action(), IngestAction::Fail(IngestError::StorageFailed));
    s.advance(IngestEvent::TransactionOpened);
    assert_eq!(s.action(), IngestAction::Fail(IngestError::StorageFailed));
}

#[test]
fn a_failed_rollback_still_fails_with_the_first_error() {
    let mut s = inserting(2, &[1]);
    s.advance(IngestEvent::StorageFailed);
    s.advance(IngestEvent::StorageFailed);
    assert_eq!(s.action(), IngestAction::Fail(IngestError::StorageFailed));
}

#[test]
fn a_failed_commit_fails_the_batch() {
    let mut s = inserting(2, &[1, 2]);
    assert_eq!(s.action(), IngestAction::Commit);
    s.advance(IngestEvent::StorageFailed);
    assert_eq!(s.action(), IngestAction::Fail(IngestError::StorageFailed));
}

#[test]
fn reports_out_of_turn_fail_the_batch() {
    let mut s = IngestSession::new(2, 3);
    s.advance(IngestEvent::RowInserted(1));
    assert_eq!(s.action(), IngestAction::Fail(IngestError::OutOfOrder));

    let mut s = IngestSession::new(2, 3);
    s.advance(IngestEvent::Embedded(vec![3, 3]));
    s.advance(IngestEvent::Committed);
    assert_eq!(s.action(), IngestAction::Fail(IngestError::OutOfOrder));

    let mut s = inserting(2, &[1]);
    s.advance(IngestEvent::Committed);
    assert_eq!(s.action(), IngestAction::Rollback);
    s.advance(IngestEvent::RolledBack);
    assert_eq!(s.action(), IngestAction::Fail(IngestError::OutOfOrder));

    let mut s = inserting(2, &[1, 2]);
    s.advance(IngestEvent::RowInserted(3));
    assert_eq!(s.action(), IngestAction::Rollback);
    s.advance(IngestEvent::RolledBack);
    assert_eq!(s.action(), IngestAction::Fail(IngestError::OutOfOrder));
}

#[test]
fn a_document_is_inserted_with_three_binds() {
    let q = docs().insert_query("cat", "{\"type\":\"animal\"}");
    assert_eq!(
        q,
        Query {
            sql: text("INSERT INTO docs (text, metadata, text_embedding) VALUES (?, ?, ?)"),
            binds: vec![
                Bind::Text(text("cat")),
                Bind::Text(text("{\"type\":\"animal\"}")),
                Bind::Embedding,
            ],
        }
    );
}

#[test]
fn hostile_content_is_only_ever_bound() {
    let q = docs().insert_query("'); DROP TABLE docs; --", "{\"a\":\"?\"}");
    assert_eq!(q.sql, "INSERT INTO docs (text, metadata, text_embedding) VALUES (?, ?, ?)");
    assert_eq!(q.binds[0], Bind::Text(text("'); DROP TABLE docs; --")));
}

#[test]
fn metadata_that_is_no_object_is_the_callers_error() {
    let batch = vec![doc("a", "{}"), doc("b", "[1]"), doc("c", "{")];
    assert_eq!(docs().begin_ingest(&batch), Err(IngestError::InvalidMetadata(1)));
    let batch = vec![doc("a", "not json"), doc("b", "{}")];
    assert_eq!(docs().begin_ingest(&batch), Err(IngestError::InvalidMetadata(0)));
    let batch = vec![doc("a", "{}"), doc("b", "{\"k\": [1, 2]}")];
    assert!(docs().begin_ingest(&batch).is_ok());
}

#[test]
fn the_first_invalid_kind_is_found() {
    let (object, other, malformed) = (JsonKind::Object, JsonKind::Other, JsonKind::Malformed);
    assert_eq!(find_invalid(&vec![]), None);
    assert_eq!(find_invalid(&vec![object, object]), None);
    assert_eq!(find_invalid(&vec![other]), Some(0));
    assert_eq!(find_invalid(&vec![object, malformed, other]), Some(1));
    assert_eq!(find_invalid(&vec![object, object, other]), Some(2));
    assert_eq!(
        docs().begin_ingest_checked(&vec![object, other]),
        Err(IngestError::InvalidMetadata(1))
    );
    let s = docs().begin_ingest_checked(&vec![object, object]).unwrap();
    assert_eq!(s, IngestSession::new(2, 3));
}
