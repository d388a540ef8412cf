use clicker::store::{Event, RecordStore, StoreError};
use clicker::state::State;

fn s(x: &str) -> String {
    x.to_string()
}

fn scores_of(store: &RecordStore) -> Vec<(String, u16)> {
    store.query_scores().expect("record should exist").scores
}

#[test]
fn scenario_walkthrough() {
    let mut store = RecordStore::new();
    store.instantiate(s("0"), s("alice")).expect("instantiate succeeds");
    let count = store.query_count().expect("record exists").count;
    assert_eq!(count, s("0"));

    store.try_upsert_score(s("bob"), 42).expect("record exists");
    assert_eq!(scores_of(&store), vec![(s("bob"), 42)]);

    store.try_upsert_score(s("bob"), 7).expect("record exists");
    assert_eq!(scores_of(&store), vec![(s("bob"), 7)]);

    store.try_upsert_score(s("carol"), 100).expect("record exists");
    assert_eq!(scores_of(&store), vec![(s("bob"), 7), (s("carol"), 100)]);
}

#[test]
fn reads_fail_before_initialize() {
    let mut store = RecordStore::new();
    assert!(matches!(store.query_count(), Err(StoreError::NotFound)));
    assert!(matches!(store.query_scores(), Err(StoreError::NotFound)));
    assert!(matches!(store.try_upsert_score(s("bob"), 1), Err(StoreError::NotFound)));
    assert!(matches!(store.query_count(), Err(StoreError::NotFound)));
}

#[test]
fn reads_are_idempotent() {
    let mut store = RecordStore::new();
    store.instantiate(s("12"), s("alice")).expect("instantiate succeeds");
    store.try_upsert_score(s("bob"), 3).expect("record exists");

    let c1 = store.query_count().expect("record exists").count;
    let c2 = store.query_count().expect("record exists").count;
    assert_eq!(c1, c2);

    let s1 = scores_of(&store);
    let s2 = scores_of(&store);
    assert_eq!(s1, s2);
}

#[test]
fn update_preserves_order() {
    let mut store = RecordStore::new();
    store.instantiate(s("0"), s("alice")).expect("instantiate succeeds");
    store.try_upsert_score(s("a"), 1).expect("record exists");
    store.try_upsert_score(s("b"), 2).expect("record exists");
    store.try_upsert_score(s("a"), 9).expect("record exists");
    assert_eq!(scores_of(&store), vec![(s("a"), 9), (s("b"), 2)]);
}

#[test]
fn append_on_new() {
    let mut store = RecordStore::new();
    store.instantiate(s("0"), s("alice")).expect("instantiate succeeds");
    store.try_upsert_score(s("a"), 1).expect("record exists");
    store.try_upsert_score(s("b"), 2).expect("record exists");
    store.try_upsert_score(s("c"), 3).expect("record exists");
    assert_eq!(scores_of(&store), vec![(s("a"), 1), (s("b"), 2), (s("c"), 3)]);
}

#[test]
fn uniqueness_under_many_calls() {
    let mut store = RecordStore::new();
    store.instantiate(s("0"), s("alice")).expect("instantiate succeeds");
    let calls = [("a", 1), ("b", 2), ("a", 3), ("c", 4), ("b", 5), ("a", 6)];
    for (who, sc) in calls {
        store.try_upsert_score(s(who), sc).expect("record exists");
    }
    let scores = scores_of(&store);
    for i in 0..scores.len() {
        for j in 0..scores.len() {
            if i != j {
                assert_ne!(scores[i].0, scores[j].0);
            }
        }
    }
    assert_eq!(scores, vec![(s("a"), 6), (s("b"), 5), (s("c"), 4)]);
}

#[test]
fn owner_is_immutable() {
    let mut store = RecordStore::new();
    store.instantiate(s("0"), s("alice")).expect("instantiate succeeds");
    store.try_upsert_score(s("bob"), 1).expect("record exists");
    store.try_upsert_score(s("carol"), 2).expect("record exists");
    store.try_upsert_score(s("alice"), 3).expect("record exists");
    let record = store.record.as_ref().expect("record exists");
    assert_eq!(record.owner, s("alice"));
    assert_eq!(record.count, s("0"));
}

#[test]
fn reinitialize_overwrites() {
    let mut store = RecordStore::new();
    store.instantiate(s("1"), s("alice")).expect("instantiate succeeds");
    store.try_upsert_score(s("bob"), 42).expect("record exists");
    store.instantiate(s("2"), s("dave")).expect("instantiate succeeds");
    assert_eq!(store.query_count().expect("record exists").count, s("2"));
    assert_eq!(scores_of(&store), vec![]);
    let record = store.record.as_ref().expect("record exists");
    assert_eq!(record.owner, s("dave"));
}

#[test]
fn instantiate_event_attributes() {
    let mut store = RecordStore::new();
    let event = store.instantiate(s("0"), s("alice")).expect("instantiate succeeds");
    let attrs = event.attributes();
    assert_eq!(
        attrs,
        vec![
            (s("method"), s("instantiate")),
            (s("owner"), s("alice")),
            (s("count"), s("0")),
            (s("scores"), s("")),
        ]
    );
}

#[test]
fn upsert_event_attributes() {
    let mut store = RecordStore::new();
    store.instantiate(s("0"), s("alice")).expect("instantiate succeeds");
    let event = store.try_upsert_score(s("bob"), 42).expect("record exists");
    let attrs = event.attributes();
    assert_eq!(
        attrs,
        vec![(s("method"), s("upsert")), (s("player"), s("bob")), (s("score"), s("42"))]
    );
}

#[test]
fn upsert_event_carries_payload() {
    let mut store = RecordStore::new();
    store.instantiate(s("0"), s("alice")).expect("instantiate succeeds");
    match store.try_upsert_score(s("bob"), 42).expect("record exists") {
        Event::Upserted { player, score } => {
            assert_eq!(player, s("bob"));
            assert_eq!(score, 42);
        }
        Event::Instantiated { .. } => panic!("wrong event kind"),
    }
}

#[test]
fn error_variants_are_distinct() {
    assert_ne!(StoreError::NotFound, StoreError::Storage);
    assert_eq!(StoreError::NotFound, StoreError::NotFound);
}

#[test]
fn state_upsert_directly() {
    let mut state = State::new(s("0"), s("alice"));
    state.upsert_score(s("bob"), 10);
    state.upsert_score(s("erin"), 20);
    state.upsert_score(s("bob"), 30);
    assert_eq!(state.scores, vec![(s("bob"), 30), (s("erin"), 20)]);
    assert_eq!(state.count, s("0"));
    assert_eq!(state.owner, s("alice"));
}

#[test]
fn identities_are_taken_as_given() {
    let mut store = RecordStore::new();
    store.instantiate(s(""), s("")).expect("instantiate succeeds");
    store.try_upsert_score(s("  spaced out  "), 1).expect("record exists");
    store.try_upsert_score(s(""), 2).expect("record exists");
    assert_eq!(scores_of(&store), vec![(s("  spaced out  "), 1), (s(""), 2)]);
    assert_eq!(store.record.as_ref().expect("record exists").owner, s(""));
}
