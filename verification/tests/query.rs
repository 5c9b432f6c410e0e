use nostr_rs_relay::db::{is_hex, is_hex_blob, query_from_sub};
use nostr_rs_relay::subscription::{ReqFilter, Subscription};

fn filter() -> ReqFilter {
    ReqFilter::new()
}

#[test]
fn is_hex_accepts_digits_of_both_cases() {
    assert!(is_hex("0123456789abcdefABCDEF"));
    assert!(is_hex(""));
    assert!(!is_hex("xyz"));
    assert!(!is_hex("12 34"));
    assert!(!is_hex("ab\u{e9}"));
}

#[test]
fn query_without_filters_selects_nothing() {
    let sub = Subscription { id: "s".to_string(), filters: vec![] };
    assert_eq!(
        query_from_sub(&sub),
        "SELECT DISTINCT(e.content) FROM event e LEFT JOIN event_ref er ON e.id=er.event_id LEFT JOIN pubkey_ref pr ON e.id=pr.event_id  WHERE 1=0 "
    );
}

#[test]
fn query_leaves_out_what_writes_no_bytes() {
    let mut f = filter();
    f.ids = Some(vec!["abc".to_string(), "abcd".to_string(), "".to_string(), "0g".to_string(), "AbCd".to_string()]);
    let sub = Subscription { id: "s".to_string(), filters: vec![f] };
    assert_eq!(
        query_from_sub(&sub),
        "SELECT DISTINCT(e.content) FROM event e LEFT JOIN event_ref er ON e.id=er.event_id LEFT JOIN pubkey_ref pr ON e.id=pr.event_id  WHERE ( event_hash IN (x'abcd', x'', x'AbCd') )"
    );
    assert!(is_hex_blob("00ff"));
    assert!(is_hex_blob(""));
    assert!(!is_hex_blob("0ff"));
    assert!(!is_hex_blob("0x"));
    assert!(!is_hex_blob("éé"));
}

#[test]
fn query_for_empty_filter_selects_everything() {
    let sub = Subscription { id: "s".to_string(), filters: vec![filter()] };
    assert_eq!(
        query_from_sub(&sub),
        "SELECT DISTINCT(e.content) FROM event e LEFT JOIN event_ref er ON e.id=er.event_id LEFT JOIN pubkey_ref pr ON e.id=pr.event_id  WHERE  1=1 "
    );
}

#[test]
fn query_combines_conditions_with_and_and_filters_with_or() {
    let mut f1 = filter();
    f1.authors = Some(vec!["ab12".to_string(), "not hex".to_string(), "CD".to_string()]);
    f1.kinds = Some(vec![1, 7]);
    f1.since = Some(1000);
    let mut f2 = filter();
    f2.ids = Some(vec!["00ff".to_string()]);
    f2.events = Some(vec![]);
    f2.pubkeys = Some(vec!["aa".to_string()]);
    f2.until = Some(18446744073709551615);
    let sub = Subscription { id: "s".to_string(), filters: vec![f1, f2] };
    assert_eq!(
        query_from_sub(&sub),
        "SELECT DISTINCT(e.content) FROM event e LEFT JOIN event_ref er ON e.id=er.event_id LEFT JOIN pubkey_ref pr ON e.id=pr.event_id  WHERE ( author IN (x'ab12', x'CD') AND kind IN (1, 7) AND created_at > 1000 ) OR ( event_hash IN (x'00ff') AND referenced_event IN () AND referenced_pubkey IN (x'aa') AND created_at < 18446744073709551615 )"
    );
}

#[test]
fn query_takes_the_smallest_limit() {
    let mut f1 = filter();
    f1.limit = Some(50);
    let mut f2 = filter();
    f2.kinds = Some(vec![0]);
    let mut f3 = filter();
    f3.limit = Some(20);
    let sub = Subscription { id: "s".to_string(), filters: vec![f1, f2, f3] };
    assert_eq!(
        query_from_sub(&sub),
        "SELECT DISTINCT(e.content) FROM event e LEFT JOIN event_ref er ON e.id=er.event_id LEFT JOIN pubkey_ref pr ON e.id=pr.event_id  WHERE  1=1  OR ( kind IN (0) ) OR  1=1  LIMIT 20"
    );
}
