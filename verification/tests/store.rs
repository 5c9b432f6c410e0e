use nostr_rs_relay::config::Settings;
use nostr_rs_relay::db::{
    admission_refusal, db_query, db_writer, event_record, ingest, ingest_outcome, is_denied,
    published_events, query_all_for_author, query_step, row_limit_of, write_event, EventStore,
    InsertOutcome, QueryResult, QueryStep, StoreError, SubmittedEvent,
};
use nostr_rs_relay::event::Event;
use nostr_rs_relay::notice::{EventResult, EventResultStatus, Notice};
use nostr_rs_relay::server::make_notice_message;
use nostr_rs_relay::subscription::{ReqFilter, Subscription};

fn note(id: &str, pubkey: &str, created_at: u64, kind: u64) -> Event {
    Event {
        id: id.to_string(),
        pubkey: pubkey.to_string(),
        created_at,
        kind,
        tags: vec![],
        content: String::new(),
        sig: String::new(),
    }
}

fn submitted(event: Event) -> SubmittedEvent {
    SubmittedEvent {
        event,
        source_ip: "127.0.0.1".to_string(),
        origin: None,
        user_agent: None,
        auth_pubkey: None,
    }
}

fn kinds(id: &str, kinds: Vec<u64>, limit: Option<u64>) -> Subscription {
    let mut f = ReqFilter::new();
    f.kinds = Some(kinds);
    f.limit = limit;
    Subscription { id: id.to_string(), filters: vec![f] }
}

fn row(sub_id: &str, e: &Event) -> QueryResult {
    QueryResult { sub_id: sub_id.to_string(), event: e.to_json() }
}

fn eose(sub_id: &str) -> QueryResult {
    QueryResult { sub_id: sub_id.to_string(), event: "EOSE".to_string() }
}

#[test]
fn insert_is_idempotent() {
    let mut store = EventStore::new();
    let e = note("aa", "k", 1, 1);
    assert_eq!(store.insert(&e), InsertOutcome::Inserted);
    assert_eq!(store.insert(&e), InsertOutcome::Duplicate);
    assert_eq!(store.len(), 1);
    assert!(store.contains_id("aa"));
    assert!(!store.contains_id("a"));
    let same_id = note("aa", "other", 2, 2);
    assert_eq!(store.insert(&same_id), InsertOutcome::Duplicate);
    assert_eq!(store.len(), 1);
}

#[test]
fn write_event_counts_the_rows_it_adds() {
    let mut store = EventStore::new();
    assert_eq!(write_event(&mut store, &note("a", "k", 1, 1)), 1);
    assert_eq!(write_event(&mut store, &note("b", "k", 1, 1)), 1);
    assert_eq!(write_event(&mut store, &note("a", "k", 1, 1)), 0);
    assert_eq!(store.len(), 2);
}

#[test]
fn duplicate_submission_is_confirmed_twice_and_stored_once() {
    let id = "aa".repeat(32);
    let settings = Settings::new();
    let mut store = EventStore::new();
    let first = ingest(&mut store, &settings.authorization, note(&id, "k", 1, 1));
    let second = ingest(&mut store, &settings.authorization, note(&id, "k", 1, 1));
    assert_eq!(make_notice_message(&first.notice), format!("[\"OK\",\"{id}\",true,\"\"]"));
    assert_eq!(make_notice_message(&second.notice), format!("[\"OK\",\"{id}\",true,\"duplicate: \"]"));
    assert_eq!(first.published, Some(note(&id, "k", 1, 1)));
    assert_eq!(second.published, None);
    assert_eq!(store.len(), 1);
}

#[test]
fn ingest_outcome_follows_the_store() {
    let e = note("id1", "k", 1, 1);
    let saved = ingest_outcome(e.clone(), Ok(InsertOutcome::Inserted));
    assert_eq!(saved.notice, Notice::saved("id1".to_string()));
    assert_eq!(saved.published, Some(e.clone()));
    let dup = ingest_outcome(e.clone(), Ok(InsertOutcome::Duplicate));
    assert_eq!(dup.notice, Notice::duplicate("id1".to_string()));
    assert_eq!(dup.published, None);
    let failed = ingest_outcome(e.clone(), Err(StoreError::Unavailable));
    assert_eq!(
        failed.notice,
        Notice::EventResult(EventResult {
            id: "id1".to_string(),
            msg: "error: event store is unavailable".to_string(),
            status: EventResultStatus::Error,
        })
    );
    assert_eq!(failed.published, None);
    assert_eq!(
        make_notice_message(&failed.notice),
        "[\"OK\",\"id1\",false,\"error: event store is unavailable\"]"
    );
    assert_eq!(StoreError::Corrupt.reason(), "event store is corrupt");
    assert_eq!(StoreError::Conflict.reason(), "write conflict");
}

#[test]
fn admission_follows_whitelist_and_blacklist() {
    let mut settings = Settings::new();
    assert!(!is_denied(&settings.authorization, "alice"));
    settings.authorization.pubkey_whitelist = Some(vec!["alice".to_string()]);
    assert!(!is_denied(&settings.authorization, "alice"));
    assert!(is_denied(&settings.authorization, "bob"));
    settings.authorization.pubkey_blacklist = Some(vec!["alice".to_string()]);
    assert!(is_denied(&settings.authorization, "alice"));
    settings.authorization.pubkey_whitelist = None;
    assert!(!is_denied(&settings.authorization, "bob"));
    let mut store = EventStore::new();
    let blocked = ingest(&mut store, &settings.authorization, note("x", "alice", 1, 1));
    assert_eq!(
        make_notice_message(&blocked.notice),
        "[\"OK\",\"x\",false,\"blocked: pubkey is not allowed to publish to this relay\"]"
    );
    assert_eq!(blocked.published, None);
    assert_eq!(store.len(), 0);
}

#[test]
fn writer_publishes_new_events_in_submission_order() {
    let settings = Settings::new();
    let mut store = EventStore::new();
    let queue = vec![
        submitted(note("e1", "k", 1, 1)),
        submitted(note("e2", "k", 2, 1)),
        submitted(note("e1", "k", 1, 1)),
        submitted(note("e3", "k", 3, 1)),
    ];
    let done = db_writer(&mut store, &settings.authorization, queue);
    assert_eq!(done.len(), 4);
    assert_eq!(
        published_events(&done),
        vec![note("e1", "k", 1, 1), note("e2", "k", 2, 1), note("e3", "k", 3, 1)]
    );
    assert_eq!(done[2].notice, Notice::duplicate("e1".to_string()));
    assert_eq!(store.len(), 3);
    let again = db_writer(&mut store, &settings.authorization, vec![submitted(note("e2", "k", 2, 1))]);
    assert_eq!(published_events(&again), vec![]);
}

#[test]
fn query_returns_matching_events_then_the_end_marker() {
    let mut store = EventStore::new();
    let e1 = note("e1", "k", 1, 1);
    let e2 = note("e2", "k", 2, 7);
    let e3 = note("e3", "k", 3, 1);
    for e in [&e1, &e2, &e3] {
        store.insert(e);
    }
    assert_eq!(db_query(&store, &kinds("s", vec![1], None), None), vec![row("s", &e1), row("s", &e3), eose("s")]);
    assert_eq!(db_query(&store, &kinds("s", vec![9], None), None), vec![eose("s")]);
    assert_eq!(db_query(&store, &Subscription { id: "n".to_string(), filters: vec![] }, None), vec![eose("n")]);
}

#[test]
fn query_stops_at_the_smallest_limit() {
    let mut store = EventStore::new();
    let events: Vec<Event> = (0..5).map(|i| note(&format!("e{i}"), "k", i, 1)).collect();
    for e in &events {
        store.insert(e);
    }
    let limited = kinds("s", vec![1], Some(2));
    assert_eq!(row_limit_of(&limited), Some(2));
    assert_eq!(db_query(&store, &limited, None), vec![row("s", &events[0]), row("s", &events[1]), eose("s")]);
    assert_eq!(db_query(&store, &kinds("s", vec![1], Some(0)), None), vec![eose("s")]);
    assert_eq!(db_query(&store, &kinds("s", vec![1], Some(9)), None).len(), 6);
    let mut two = kinds("s", vec![1], Some(4));
    let mut second = ReqFilter::new();
    second.limit = Some(3);
    two.filters.push(second);
    two.filters.push(ReqFilter::new());
    assert_eq!(row_limit_of(&two), Some(3));
    assert_eq!(db_query(&store, &two, None).len(), 4);
}

#[test]
fn cancelled_query_sends_no_more_rows_and_no_end_marker() {
    let mut store = EventStore::new();
    let events: Vec<Event> = (0..3).map(|i| note(&format!("e{i}"), "k", i, 1)).collect();
    for e in &events {
        store.insert(e);
    }
    let s = kinds("s", vec![1], None);
    assert_eq!(db_query(&store, &s, Some(0)), vec![]);
    assert_eq!(db_query(&store, &s, Some(2)), vec![row("s", &events[0]), row("s", &events[1])]);
    assert_eq!(db_query(&store, &s, Some(3)).len(), 3);
    assert_eq!(db_query(&store, &s, Some(4)).len(), 4);
    assert_eq!(db_query(&store, &s, Some(4)).last(), Some(&eose("s")));
}

#[test]
fn query_step_checks_cancellation_before_each_row() {
    assert_eq!(query_step("s", true, Some("{}".to_string())), QueryStep::Abort);
    assert_eq!(query_step("s", true, None), QueryStep::Abort);
    assert_eq!(
        query_step("s", false, Some("{}".to_string())),
        QueryStep::Send(QueryResult { sub_id: "s".to_string(), event: "{}".to_string() })
    );
    assert_eq!(query_step("s", false, None), QueryStep::Finish(eose("s")));
}

#[test]
fn event_record_decodes_hex_fields() {
    let mut e = note("00ff1A", "0a0B", 5, 6);
    e.tags = vec![
        vec!["e".to_string(), "abcd".to_string()],
        vec!["e".to_string(), "xyz".to_string()],
        vec!["p".to_string(), "012".to_string()],
        vec!["p".to_string(), "".to_string()],
    ];
    let r = event_record(&e);
    assert_eq!(r.event_hash, Some(vec![0x00, 0xff, 0x1a]));
    assert_eq!(r.author, Some(vec![0x0a, 0x0b]));
    assert_eq!(r.created_at, 5);
    assert_eq!(r.kind, 6);
    assert_eq!(r.content, e.to_json());
    assert_eq!(r.event_refs, vec![Some(vec![0xab, 0xcd]), None]);
    assert_eq!(r.pubkey_refs, vec![None, Some(vec![])]);
    let odd = event_record(&note("abc", "é0", 0, 0));
    assert_eq!(odd.event_hash, None);
    assert_eq!(odd.author, None);
}

#[test]
fn export_returns_the_events_of_one_author() {
    let mut store = EventStore::new();
    let a1 = note("a1", "alice", 1, 1);
    let b1 = note("b1", "bob", 2, 1);
    let a2 = note("a2", "alice", 3, 7);
    for e in [&a1, &b1, &a2] {
        store.insert(e);
    }
    assert_eq!(query_all_for_author(&store, "alice", None), vec![a1.clone(), a2.clone()]);
    assert_eq!(query_all_for_author(&store, "bob", None), vec![b1]);
    assert_eq!(query_all_for_author(&store, "carol", None), vec![]);
    assert_eq!(query_all_for_author(&store, "alice", Some(0)), vec![]);
    assert_eq!(query_all_for_author(&store, "alice", Some(1)), vec![a1.clone()]);
    assert_eq!(query_all_for_author(&store, "alice", Some(2)), vec![a1.clone(), a2.clone()]);
    assert_eq!(query_all_for_author(&store, "alice", Some(5)), vec![a1, a2]);
}

#[test]
fn refusal_is_given_only_to_denied_authors() {
    let mut settings = Settings::new();
    let e = note("x", "alice", 1, 1);
    assert_eq!(admission_refusal(&settings.authorization, &e), None);
    settings.authorization.pubkey_blacklist = Some(vec!["alice".to_string()]);
    let refused = admission_refusal(&settings.authorization, &e).unwrap();
    assert_eq!(refused.published, None);
    assert_eq!(refused.notice, Notice::blocked("x".to_string(), "pubkey is not allowed to publish to this relay"));
}
