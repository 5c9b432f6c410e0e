use nostr_rs_relay::error::Error;
use nostr_rs_relay::event::{parse_u64, Event};

fn tags(list: &[&[&str]]) -> Vec<Vec<String>> {
    list.iter().map(|t| t.iter().map(|s| s.to_string()).collect()).collect()
}

fn plain_event(tag_list: &[&[&str]]) -> Event {
    Event {
        id: "0123456789abcdef0123".to_string(),
        pubkey: "aa".repeat(32),
        created_at: 1000,
        kind: 1,
        tags: tags(tag_list),
        content: "hello".to_string(),
        sig: "00".repeat(64),
    }
}

fn signed_event(secret: [u8; 32], created_at: u64, kind: u64, tag_list: &[&[&str]], content: &str) -> Event {
    let secp = secp256k1::Secp256k1::new();
    let pair = secp256k1::KeyPair::from_seckey_slice(&secp, &secret).unwrap();
    let pubkey = secp256k1::XOnlyPublicKey::from_keypair(&pair).to_string();
    let mut e = Event {
        id: String::new(),
        pubkey,
        created_at,
        kind,
        tags: tags(tag_list),
        content: content.to_string(),
        sig: String::new(),
    };
    let digest = <bitcoin_hashes::sha256::Hash as bitcoin_hashes::Hash>::hash(e.to_canonical().as_bytes());
    e.id = format!("{:x}", digest);
    let msg = secp256k1::Message::from_slice(digest.as_ref()).unwrap();
    e.sig = secp.sign_schnorr_no_aux_rand(&msg, &pair).to_string();
    e
}

#[test]
fn tag_values_are_second_elements_of_named_tags() {
    let e = plain_event(&[&["e", "id1", "relay"], &["p", "key1"], &["e"], &["e", "id2"], &["x", "y"]]);
    assert_eq!(e.tag_values_by_name("e"), vec!["id1".to_string(), "id2".to_string()]);
    assert_eq!(e.get_event_tags(), vec!["id1".to_string(), "id2".to_string()]);
    assert_eq!(e.get_pubkey_tags(), vec!["key1".to_string()]);
    assert_eq!(e.tag_values_by_name("missing"), Vec::<String>::new());
}

#[test]
fn parse_u64_reads_decimal_numbers() {
    assert_eq!(parse_u64("0"), Some(0));
    assert_eq!(parse_u64("007"), Some(7));
    assert_eq!(parse_u64("+42"), Some(42));
    assert_eq!(parse_u64("18446744073709551615"), Some(u64::MAX));
    assert_eq!(parse_u64("18446744073709551616"), None);
    assert_eq!(parse_u64(""), None);
    assert_eq!(parse_u64("+"), None);
    assert_eq!(parse_u64("-1"), None);
    assert_eq!(parse_u64("12a"), None);
    assert_eq!(parse_u64(" 12"), None);
    assert_eq!(parse_u64("++1"), None);
}

#[test]
fn parse_u64_agrees_with_the_standard_parser() {
    for s in ["1", "+1", "99999999999999999999", "1_000", "٣", "18446744073709551615", "", "+"] {
        assert_eq!(parse_u64(s), s.parse::<u64>().ok());
    }
}

#[test]
fn expiration_is_read_from_the_first_expiration_tag() {
    assert_eq!(plain_event(&[]).expiration(), None);
    assert_eq!(plain_event(&[&["expiration", "1500"]]).expiration(), Some(1500));
    assert_eq!(plain_event(&[&["expiration", "soon"], &["expiration", "1500"]]).expiration(), None);
    assert_eq!(plain_event(&[&["expiration"], &["expiration", "1500"]]).expiration(), None);
    assert_eq!(plain_event(&[&["e", "x"], &["expiration", "7", "rest"]]).expiration(), Some(7));
}

#[test]
fn event_expires_when_its_time_is_not_after_now() {
    let e = plain_event(&[&["expiration", "1500"]]);
    assert!(!e.is_expired(1499));
    assert!(e.is_expired(1500));
    assert!(e.is_expired(1501));
    assert!(!plain_event(&[]).is_expired(u64::MAX));
}

#[test]
fn timestamp_is_valid_up_to_the_allowed_skew() {
    let e = plain_event(&[]);
    assert!(e.is_valid_timestamp(0, None));
    assert!(e.is_valid_timestamp(900, Some(100)));
    assert!(!e.is_valid_timestamp(899, Some(100)));
    assert!(e.is_valid_timestamp(1000, Some(0)));
    assert!(!e.is_valid_timestamp(999, Some(0)));
    assert!(e.is_valid_timestamp(u64::MAX, Some(u64::MAX)));
}

#[test]
fn id_prefix_has_at_most_eight_characters() {
    assert_eq!(plain_event(&[]).get_event_id_prefix(), "01234567");
    let mut e = plain_event(&[]);
    e.id = "abc".to_string();
    assert_eq!(e.get_event_id_prefix(), "abc");
    e.id = String::new();
    assert_eq!(e.get_event_id_prefix(), "");
}

#[test]
fn canonical_form_is_compact_json() {
    let mut e = plain_event(&[&["e", "id\"1"], &[]]);
    e.pubkey = "ab".to_string();
    e.content = "line\nbreak \\ \u{1} tab\t é".to_string();
    assert_eq!(
        e.to_canonical(),
        "[0,\"ab\",1000,1,[[\"e\",\"id\\\"1\"],[]],\"line\\nbreak \\\\ \\u0001 tab\\t é\"]"
    );
}

#[test]
fn canonical_form_agrees_with_serde_json() {
    let e = plain_event(&[&["p", "k\u{8}\u{c}\r\u{1f}\u{7f}"], &["a", "b", "c"]]);
    let tags: Vec<serde_json::Value> = e
        .tags
        .iter()
        .map(|t| serde_json::Value::Array(t.iter().map(|s| serde_json::Value::String(s.clone())).collect()))
        .collect();
    let expected = serde_json::Value::Array(vec![
        serde_json::Value::from(0),
        serde_json::Value::String(e.pubkey.clone()),
        serde_json::Value::from(e.created_at),
        serde_json::Value::from(e.kind),
        serde_json::Value::Array(tags),
        serde_json::Value::String(e.content.clone()),
    ]);
    assert_eq!(e.to_canonical(), expected.to_string());
}

#[test]
fn json_form_lists_the_fields_in_order() {
    let mut e = plain_event(&[&["e", "x"]]);
    e.id = "id".to_string();
    e.pubkey = "pk".to_string();
    e.sig = "sg".to_string();
    assert_eq!(
        e.to_json(),
        "{\"id\":\"id\",\"pubkey\":\"pk\",\"created_at\":1000,\"kind\":1,\"tags\":[[\"e\",\"x\"]],\"content\":\"hello\",\"sig\":\"sg\"}"
    );
}

#[test]
fn id_matches_compares_with_lower_case_hex() {
    let mut e = plain_event(&[]);
    e.id = "00ff10".to_string();
    assert!(e.id_matches(&vec![0x00, 0xff, 0x10]));
    assert!(!e.id_matches(&vec![0x00, 0xff]));
    e.id = "00FF10".to_string();
    assert!(!e.id_matches(&vec![0x00, 0xff, 0x10]));
}

#[test]
fn validate_accepts_a_signed_event() {
    let e = signed_event([7u8; 32], 1_700_000_000, 1, &[&["e", "ab"]], "signed \"content\"");
    assert_eq!(e.validate(), Ok(()));
}

#[test]
fn validate_refuses_a_wrong_id() {
    let mut e = signed_event([7u8; 32], 1_700_000_000, 1, &[], "text");
    e.content = "other text".to_string();
    assert_eq!(e.validate(), Err(Error::EventInvalidId));
    let unhashed = plain_event(&[]);
    assert_eq!(unhashed.validate(), Err(Error::EventInvalidId));
}

#[test]
fn validate_refuses_a_wrong_signature() {
    let good = signed_event([7u8; 32], 1_700_000_000, 1, &[], "text");
    let other = signed_event([7u8; 32], 1_700_000_001, 1, &[], "text");
    let mut e = good.clone();
    e.sig = other.sig.clone();
    assert_eq!(e.validate(), Err(Error::EventInvalidSignature));
    e.sig = "zz".to_string();
    assert_eq!(e.validate(), Err(Error::EventInvalidSignature));
    e.sig = good.sig[..126].to_string();
    assert_eq!(e.validate(), Err(Error::EventInvalidSignature));
}

#[test]
fn validate_refuses_a_malformed_pubkey() {
    let mut e = signed_event([7u8; 32], 1_700_000_000, 1, &[], "text");
    e.pubkey = "nokey".to_string();
    let digest = <bitcoin_hashes::sha256::Hash as bitcoin_hashes::Hash>::hash(e.to_canonical().as_bytes());
    e.id = format!("{:x}", digest);
    assert_eq!(e.validate(), Err(Error::EventMalformedPubkey));
}

#[test]
fn clone_keeps_every_field() {
    let e = signed_event([9u8; 32], 5, 7, &[&["e", "x"], &["p", "y", "z"]], "c");
    assert_eq!(e.clone(), e);
}

#[test]
fn error_messages_are_fixed_texts() {
    assert_eq!(Error::ProtoParseError.message(), "Protocol parse error");
    assert_eq!(Error::EventMaxLengthError(5).message(), "Event too large");
    assert_eq!(Error::EventInvalidId.message(), "Event invalid id");
    assert_eq!(Error::EventInvalidSignature.message(), "Event invalid signature");
    assert_eq!(Error::SubMaxExceededError.message(), "Maximum concurrent subscription count reached");
    assert_eq!(Error::CommandUnknownError.message(), "Command unknown");
}
