use nostr_rs_relay::event::Event;
use nostr_rs_relay::subscription::{ReqFilter, Subscription};

fn strings(list: &[&str]) -> Vec<String> {
    list.iter().map(|s| s.to_string()).collect()
}

fn note(id: &str, pubkey: &str, created_at: u64, kind: u64, tag_list: &[&[&str]]) -> Event {
    Event {
        id: id.to_string(),
        pubkey: pubkey.to_string(),
        created_at,
        kind,
        tags: tag_list.iter().map(|t| strings(t)).collect(),
        content: String::new(),
        sig: String::new(),
    }
}

fn sub(filters: Vec<ReqFilter>) -> Subscription {
    Subscription { id: "s".to_string(), filters }
}

#[test]
fn empty_filter_matches_everything() {
    let f = ReqFilter::new();
    assert!(f.interested_in_event(&note("a", "b", 0, 0, &[])));
    assert!(f.interested_in_event(&note("x", "y", u64::MAX, 7, &[&["e", "z"]])));
}

#[test]
fn filter_conditions_are_conjunctive() {
    let mut f = ReqFilter::new();
    f.authors = Some(strings(&["alice", "bob"]));
    f.kinds = Some(vec![1, 7]);
    assert!(f.interested_in_event(&note("1", "alice", 10, 7, &[])));
    assert!(!f.interested_in_event(&note("1", "alice", 10, 2, &[])));
    assert!(!f.interested_in_event(&note("1", "carol", 10, 1, &[])));
}

#[test]
fn filter_on_ids_wants_an_exact_match() {
    let mut f = ReqFilter::new();
    f.ids = Some(strings(&["abc"]));
    assert!(f.interested_in_event(&note("abc", "k", 1, 1, &[])));
    assert!(!f.interested_in_event(&note("ab", "k", 1, 1, &[])));
    assert!(!f.interested_in_event(&note("abcd", "k", 1, 1, &[])));
    f.ids = Some(vec![]);
    assert!(!f.interested_in_event(&note("abc", "k", 1, 1, &[])));
}

#[test]
fn filter_on_references_wants_one_common_value() {
    let mut f = ReqFilter::new();
    f.events = Some(strings(&["e1", "e2"]));
    assert!(f.interested_in_event(&note("1", "k", 1, 1, &[&["e", "e0"], &["e", "e2"]])));
    assert!(!f.interested_in_event(&note("1", "k", 1, 1, &[&["e", "e0"]])));
    assert!(!f.interested_in_event(&note("1", "k", 1, 1, &[&["p", "e1"]])));
    let mut g = ReqFilter::new();
    g.pubkeys = Some(strings(&["p1"]));
    assert!(g.interested_in_event(&note("1", "k", 1, 1, &[&["p", "p1"]])));
    assert!(!g.interested_in_event(&note("1", "p1", 1, 1, &[])));
}

#[test]
fn time_bounds_are_exclusive() {
    let mut f = ReqFilter::new();
    f.since = Some(100);
    f.until = Some(200);
    assert!(!f.interested_in_event(&note("1", "k", 100, 1, &[])));
    assert!(f.interested_in_event(&note("1", "k", 101, 1, &[])));
    assert!(f.interested_in_event(&note("1", "k", 199, 1, &[])));
    assert!(!f.interested_in_event(&note("1", "k", 200, 1, &[])));
}

#[test]
fn subscription_matches_when_any_filter_matches() {
    let mut f1 = ReqFilter::new();
    f1.kinds = Some(vec![1]);
    let mut f2 = ReqFilter::new();
    f2.authors = Some(strings(&["alice"]));
    let s = sub(vec![f1, f2]);
    assert!(s.interested_in_event(&note("1", "bob", 1, 1, &[])));
    assert!(s.interested_in_event(&note("1", "alice", 1, 9, &[])));
    assert!(!s.interested_in_event(&note("1", "bob", 1, 9, &[])));
    assert!(!sub(vec![]).interested_in_event(&note("1", "bob", 1, 9, &[])));
    assert!(s.matches(&note("1", "bob", 1, 1, &[])));
    assert!(!s.matches(&note("1", "bob", 1, 9, &[])));
}

#[test]
fn scraper_has_no_selective_filter() {
    assert!(sub(vec![ReqFilter::new()]).is_scraper());
    assert!(sub(vec![]).is_scraper());
    let mut timed = ReqFilter::new();
    timed.since = Some(5);
    timed.until = Some(9);
    timed.limit = Some(3);
    assert!(sub(vec![timed.clone()]).is_scraper());
    let mut by_kind = ReqFilter::new();
    by_kind.kinds = Some(vec![1]);
    assert!(!sub(vec![by_kind.clone()]).is_scraper());
    assert!(!sub(vec![timed, by_kind]).is_scraper());
    for i in 0..4 {
        let mut f = ReqFilter::new();
        match i {
            0 => f.ids = Some(vec![]),
            1 => f.authors = Some(vec![]),
            2 => f.events = Some(vec![]),
            _ => f.pubkeys = Some(vec![]),
        }
        assert!(!sub(vec![f]).is_scraper());
    }
}

#[test]
fn history_is_needed_unless_every_filter_starts_now_or_later() {
    let mut future = ReqFilter::new();
    future.since = Some(1000);
    let mut past = ReqFilter::new();
    past.since = Some(999);
    assert!(!sub(vec![future.clone()]).needs_historical_events(1000));
    assert!(!sub(vec![future.clone()]).needs_historical_events(999));
    assert!(sub(vec![future.clone()]).needs_historical_events(1001));
    assert!(sub(vec![future.clone(), past]).needs_historical_events(1000));
    assert!(sub(vec![future, ReqFilter::new()]).needs_historical_events(1000));
    assert!(!sub(vec![]).needs_historical_events(1000));
}

#[test]
fn subscriptions_compare_by_name_and_filters() {
    let mut f = ReqFilter::new();
    f.kinds = Some(vec![1, 2]);
    f.authors = Some(strings(&["a"]));
    let s = sub(vec![f.clone(), ReqFilter::new()]);
    assert!(s.same_as(&s.clone()));
    assert_eq!(s.clone(), s);
    assert_eq!(s.get_id(), "s");
    let mut renamed = s.clone();
    renamed.id = "t".to_string();
    assert!(!s.same_as(&renamed));
    let mut other = f.clone();
    other.kinds = Some(vec![2, 1]);
    assert!(!f.same_as(&other));
    assert!(!s.same_as(&sub(vec![other, ReqFilter::new()])));
    assert!(!s.same_as(&sub(vec![f.clone()])));
    let mut unset = f.clone();
    unset.authors = None;
    assert!(!f.same_as(&unset));
    let mut limited = f.clone();
    limited.limit = Some(1);
    assert!(!f.same_as(&limited));
}
