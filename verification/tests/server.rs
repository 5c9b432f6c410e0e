use nostr_rs_relay::close::CloseCmd;
use nostr_rs_relay::config::Settings;
use nostr_rs_relay::conn::{ClientConn, Frame, FrameKind};
use nostr_rs_relay::db::{db_query, db_writer, published_events, EventStore, QueryResult, SubmittedEvent};
use nostr_rs_relay::error::Error;
use nostr_rs_relay::event::{Event, EventCmd, EventWrapper};
use nostr_rs_relay::notice::{EventResult, EventResultStatus, Notice};
use nostr_rs_relay::server::{
    allowed_to_send, convert_to_msg, get_pubkey, make_notice_message, nostr_server, Action,
    ClientInfo, DisconnectReason, Input, NostrMessage, Session,
};
use nostr_rs_relay::subscription::{ReqFilter, Subscription};

const NOW: u64 = 1_700_000_000;

fn note(id: &str, pubkey: &str, kind: u64, tag_list: &[&[&str]]) -> Event {
    Event {
        id: id.to_string(),
        pubkey: pubkey.to_string(),
        created_at: 1_600_000_000,
        kind,
        tags: tag_list.iter().map(|t| t.iter().map(|s| s.to_string()).collect()).collect(),
        content: String::new(),
        sig: String::new(),
    }
}

fn signed(secret: [u8; 32], created_at: u64, kind: u64, tag_list: &[&[&str]]) -> Event {
    let secp = secp256k1::Secp256k1::new();
    let pair = secp256k1::KeyPair::from_seckey_slice(&secp, &secret).unwrap();
    let mut e = note("", &secp256k1::XOnlyPublicKey::from_keypair(&pair).to_string(), kind, tag_list);
    e.created_at = created_at;
    let digest = <bitcoin_hashes::sha256::Hash as bitcoin_hashes::Hash>::hash(e.to_canonical().as_bytes());
    e.id = format!("{:x}", digest);
    let msg = secp256k1::Message::from_slice(digest.as_ref()).unwrap();
    e.sig = secp.sign_schnorr_no_aux_rand(&msg, &pair).to_string();
    e
}

fn session() -> Session {
    Session::new(
        ClientInfo {
            remote_ip: "10.0.0.1".to_string(),
            user_agent: Some("agent".to_string()),
            origin: None,
        },
        "0123456789".to_string(),
    )
}

fn req(id: &str, filter: ReqFilter) -> Input {
    Input::Text {
        message: Some(NostrMessage::SubMsg(Subscription { id: id.to_string(), filters: vec![filter] })),
        len: 10,
    }
}

fn by_kind(kind: u64) -> ReqFilter {
    let mut f = ReqFilter::new();
    f.kinds = Some(vec![kind]);
    f
}

fn by_author(author: &str) -> ReqFilter {
    let mut f = ReqFilter::new();
    f.authors = Some(vec![author.to_string()]);
    f
}

fn event_cmd(cmd: &str, event: Event) -> Input {
    Input::Text {
        message: Some(NostrMessage::EventMsg(EventCmd { cmd: cmd.to_string(), event })),
        len: 10,
    }
}

fn close(id: &str) -> Input {
    Input::Text {
        message: Some(NostrMessage::CloseMsg(CloseCmd { cmd: "CLOSE".to_string(), id: id.to_string() })),
        len: 10,
    }
}

fn texts(actions: &[Action]) -> Vec<String> {
    actions
        .iter()
        .map(|a| match a {
            Action::Send(t) => t.clone(),
            Action::SendFrame(f) => f.text.clone(),
            other => format!("{other:?}"),
        })
        .collect()
}

fn feed(s: &mut Session, settings: &Settings, token: u64, rows: Vec<QueryResult>, events: &[Event]) -> Vec<String> {
    let mut out = vec![];
    for r in rows {
        let decoded = events.iter().find(|e| e.to_json() == r.event).cloned();
        out.extend(texts(&nostr_server(s, settings, NOW, Input::QueryResult { token, result: r, decoded })));
    }
    out
}

#[test]
fn convert_to_msg_checks_the_size_of_event_frames() {
    let ev = || NostrMessage::EventMsg(EventCmd { cmd: "EVENT".to_string(), event: note("a", "b", 1, &[]) });
    let sub = || NostrMessage::SubMsg(Subscription { id: "s".to_string(), filters: vec![] });
    assert_eq!(convert_to_msg(None, 5, None), Err(Error::ProtoParseError));
    assert_eq!(convert_to_msg(Some(ev()), 100, None), Ok(ev()));
    assert_eq!(convert_to_msg(Some(ev()), 100, Some(100)), Ok(ev()));
    assert_eq!(convert_to_msg(Some(ev()), 101, Some(100)), Err(Error::EventMaxLengthError(101)));
    assert_eq!(convert_to_msg(Some(ev()), 101, Some(0)), Ok(ev()));
    assert_eq!(convert_to_msg(Some(sub()), 101, Some(100)), Ok(sub()));
}

#[test]
fn notices_are_written_as_json_arrays() {
    assert_eq!(make_notice_message(&Notice::message("hi \"there\"".to_string())), "[\"NOTICE\",\"hi \\\"there\\\"\"]");
    assert_eq!(make_notice_message(&Notice::AuthChallenge("c-1".to_string())), "[\"AUTH\",\"c-1\"]");
    assert_eq!(make_notice_message(&Notice::saved("id".to_string())), "[\"OK\",\"id\",true,\"\"]");
    assert_eq!(make_notice_message(&Notice::duplicate("id".to_string())), "[\"OK\",\"id\",true,\"duplicate: \"]");
    assert_eq!(make_notice_message(&Notice::invalid("id".to_string(), "bad")), "[\"OK\",\"id\",false,\"invalid: bad\"]");
    assert_eq!(make_notice_message(&Notice::blocked("id".to_string(), "no")), "[\"OK\",\"id\",false,\"blocked: no\"]");
    assert_eq!(make_notice_message(&Notice::error("id".to_string(), "x")), "[\"OK\",\"id\",false,\"error: x\"]");
    assert_eq!(make_notice_message(&Notice::restricted("id".to_string(), "x")), "[\"OK\",\"id\",false,\"restricted: x\"]");
    let limited = Notice::EventResult(EventResult {
        id: "i\nd".to_string(),
        msg: "rate-limited: slow down".to_string(),
        status: EventResultStatus::RateLimited,
    });
    assert_eq!(make_notice_message(&limited), "[\"OK\",\"i\\nd\",false,\"rate-limited: slow down\"]");
}

#[test]
fn notice_text_agrees_with_serde_json() {
    let msg = "quote \" slash \\ bell \u{7} tab \t del \u{7f} é 𝄞";
    let expected = serde_json::Value::Array(vec![
        serde_json::Value::String("NOTICE".to_string()),
        serde_json::Value::String(msg.to_string()),
    ]);
    assert_eq!(make_notice_message(&Notice::message(msg.to_string())), expected.to_string());
}

#[test]
fn status_words_and_acceptance() {
    assert!(EventResultStatus::Saved.to_bool());
    assert!(EventResultStatus::Duplicate.to_bool());
    for s in [
        EventResultStatus::Invalid,
        EventResultStatus::Blocked,
        EventResultStatus::RateLimited,
        EventResultStatus::Error,
        EventResultStatus::Restricted,
    ] {
        assert!(!s.to_bool());
    }
    assert_eq!(EventResultStatus::RateLimited.prefix(), "rate-limited");
    assert_eq!(EventResultStatus::Saved.prefix(), "saved");
}

#[test]
fn pubkey_is_read_from_the_query_string() {
    assert_eq!(get_pubkey("pubkey=abc"), Some("abc".to_string()));
    assert_eq!(get_pubkey("a=1&pubkey=abc&b=2"), Some("abc".to_string()));
    assert_eq!(get_pubkey("pubkey=one&pubkey=two"), Some("two".to_string()));
    assert_eq!(get_pubkey("pubkey=a=b"), Some("a=b".to_string()));
    assert_eq!(get_pubkey("pubkey="), Some(String::new()));
    assert_eq!(get_pubkey("pubkey=abc&pubkey"), None);
    assert_eq!(get_pubkey("pubkey"), None);
    assert_eq!(get_pubkey("Pubkey=abc"), None);
    assert_eq!(get_pubkey("xpubkey=abc"), None);
    assert_eq!(get_pubkey(""), None);
    assert_eq!(get_pubkey("=pubkey"), None);
}

#[test]
fn command_words_decide_what_an_event_is_for() {
    let e = signed([1u8; 32], NOW, 1, &[]);
    assert_eq!(EventCmd { cmd: "EVENT".to_string(), event: e.clone() }.into_wrapper(), Ok(EventWrapper::WrappedEvent(e.clone())));
    let bad = note("id", "pk", 1, &[]);
    assert_eq!(EventCmd { cmd: "EVENT".to_string(), event: bad.clone() }.into_wrapper(), Err(Error::EventInvalidId));
    assert_eq!(EventCmd { cmd: "AUTH".to_string(), event: bad.clone() }.into_wrapper(), Ok(EventWrapper::WrappedAuth(bad.clone())));
    assert_eq!(EventCmd { cmd: "event".to_string(), event: e.clone() }.into_wrapper(), Err(Error::CommandUnknownError));
    assert_eq!(EventCmd { cmd: "EVENT".to_string(), event: e.clone() }.event_id(), e.id);
    assert!(CloseCmd { cmd: "CLOSE".to_string(), id: "s".to_string() }.into_close().is_ok());
    assert_eq!(CloseCmd { cmd: "close".to_string(), id: "s".to_string() }.into_close(), Err(Error::CommandUnknownError));
}

#[test]
fn stored_text_may_be_sent_unless_direct_messages_are_restricted() {
    let c = ClientConn::new("ip".to_string(), "id".to_string());
    let mut settings = Settings::new();
    let dm = note("m", "bob", 4, &[&["p", "alice"]]);
    assert!(allowed_to_send(Some(&dm), &c, &settings));
    assert!(allowed_to_send(None, &c, &settings));
    settings.authorization.nip42_dms = true;
    assert!(!allowed_to_send(Some(&dm), &c, &settings));
    assert!(!allowed_to_send(None, &c, &settings));
    assert!(allowed_to_send(Some(&note("m", "bob", 1, &[])), &c, &settings));
}

#[test]
fn historical_then_live() {
    let settings = Settings::new();
    let author = "bb".repeat(32);
    let e1 = note("e1", &author, 1, &[]);
    let e2 = note("e2", &author, 1, &[]);
    let mut store = EventStore::new();
    store.insert(&e1);
    store.insert(&note("e0", "someone else", 1, &[]));
    let mut s = session();
    let opened = nostr_server(&mut s, &settings, NOW, req("s1", by_author(&author)));
    let (token, sub) = match &opened[..] {
        [Action::StartQuery { token, sub }] => (*token, sub.clone()),
        other => panic!("unexpected actions {other:?}"),
    };
    let rows = db_query(&store, &sub, None);
    let sent = feed(&mut s, &settings, token, rows, &[e1.clone()]);
    assert_eq!(sent, vec![format!("[\"EVENT\",\"s1\",{}]", e1.to_json()), "[\"EOSE\",\"s1\"]".to_string()]);
    let done = db_writer(
        &mut store,
        &settings.authorization,
        vec![SubmittedEvent { event: e2.clone(), source_ip: "10.0.0.2".to_string(), origin: None, user_agent: None, auth_pubkey: None }],
    );
    let mut live = vec![];
    for e in published_events(&done) {
        live.extend(texts(&nostr_server(&mut s, &settings, NOW, Input::Broadcast(e))));
    }
    assert_eq!(live, vec![format!("[\"EVENT\",\"s1\",{}]", e2.to_json())]);
    assert_eq!(s.client_received_event_count(), 1);
}

#[test]
fn round_trip_yields_one_event_and_the_end_marker() {
    let settings = Settings::new();
    let mut store = EventStore::new();
    store.insert(&note("other", "k", 2, &[]));
    let e = note("mine", "k", 1, &[]);
    let done = db_writer(
        &mut store,
        &settings.authorization,
        vec![SubmittedEvent { event: e.clone(), source_ip: String::new(), origin: None, user_agent: None, auth_pubkey: None }],
    );
    assert_eq!(published_events(&done), vec![e.clone()]);
    let mut s = session();
    let mut only = ReqFilter::new();
    only.ids = Some(vec!["mine".to_string()]);
    let opened = nostr_server(&mut s, &settings, NOW, req("r", only));
    let (token, sub) = match &opened[..] {
        [Action::StartQuery { token, sub }] => (*token, sub.clone()),
        other => panic!("unexpected actions {other:?}"),
    };
    let sent = feed(&mut s, &settings, token, db_query(&store, &sub, None), &[e.clone()]);
    assert_eq!(sent, vec![format!("[\"EVENT\",\"r\",{}]", e.to_json()), "[\"EOSE\",\"r\"]".to_string()]);
}

#[test]
fn scraper_is_answered_with_the_end_marker_alone() {
    let mut settings = Settings::new();
    settings.limits.limit_scrapers = true;
    let mut s = session();
    let actions = nostr_server(&mut s, &settings, NOW, req("s2", ReqFilter::new()));
    assert_eq!(
        actions,
        vec![Action::SendFrame(Frame {
            kind: FrameKind::Eose,
            sub_id: "s2".to_string(),
            event_id: None,
            text: "[\"EOSE\",\"s2\"]".to_string(),
        })]
    );
    assert_eq!(s.conn().subscription_count(), 0);
    assert_eq!(
        texts(&nostr_server(&mut s, &settings, NOW, req("s\"2\\", ReqFilter::new()))),
        vec!["[\"EOSE\",\"s\\\"2\\\\\"]"]
    );
    assert_eq!(nostr_server(&mut s, &settings, NOW, Input::Broadcast(note("e", "k", 1, &[]))), vec![]);
    settings.limits.limit_scrapers = false;
    let served = nostr_server(&mut s, &settings, NOW, req("s2", ReqFilter::new()));
    assert!(matches!(&served[..], [Action::StartQuery { token: 0, .. }]));
}

#[test]
fn replacing_a_subscription_cancels_its_query() {
    let settings = Settings::new();
    let mut s = session();
    let first = nostr_server(&mut s, &settings, NOW, req("s3", by_kind(1)));
    assert!(matches!(&first[..], [Action::StartQuery { token: 0, .. }]));
    let second = nostr_server(&mut s, &settings, NOW, req("s3", by_kind(7)));
    assert!(matches!(&second[..], [Action::CancelQuery(0), Action::StartQuery { token: 1, .. }]));
    let one = note("k1", "k", 1, &[]);
    let seven = note("k7", "k", 7, &[]);
    let stale = QueryResult { sub_id: "s3".to_string(), event: one.to_json() };
    assert_eq!(nostr_server(&mut s, &settings, NOW, Input::QueryResult { token: 0, result: stale, decoded: Some(one.clone()) }), vec![]);
    let end = QueryResult { sub_id: "s3".to_string(), event: "EOSE".to_string() };
    assert_eq!(texts(&nostr_server(&mut s, &settings, NOW, Input::QueryResult { token: 1, result: end, decoded: None })), vec!["[\"EOSE\",\"s3\"]"]);
    assert_eq!(nostr_server(&mut s, &settings, NOW, Input::Broadcast(one)), vec![]);
    assert_eq!(texts(&nostr_server(&mut s, &settings, NOW, Input::Broadcast(seven.clone()))), vec![format!("[\"EVENT\",\"s3\",{}]", seven.to_json())]);
}

#[test]
fn repeated_identical_request_is_ignored() {
    let settings = Settings::new();
    let mut s = session();
    assert_eq!(nostr_server(&mut s, &settings, NOW, req("s", by_kind(1))).len(), 1);
    assert_eq!(nostr_server(&mut s, &settings, NOW, req("s", by_kind(1))), vec![]);
    assert_eq!(s.conn().running_queries(), vec![0]);
}

#[test]
fn direct_messages_are_gated_by_authentication() {
    let mut settings = Settings::new();
    settings.authorization.nip42_auth = true;
    settings.authorization.nip42_dms = true;
    settings.info.relay_url = Some("wss://relay.example".to_string());
    let mut s = session();
    let hello = nostr_server(&mut s, &settings, NOW, Input::Connected { challenge: "c-1".to_string() });
    assert_eq!(hello, vec![Action::Send("[\"AUTH\",\"c-1\"]".to_string())]);
    let mut future = by_kind(4);
    future.since = Some(NOW);
    assert_eq!(nostr_server(&mut s, &settings, NOW, req("dm", future)), vec![]);
    let answer = signed([8u8; 32], NOW, 22242, &[&["relay", "wss://relay.example"], &["challenge", "c-1"]]);
    let xx = answer.pubkey.clone();
    let mut first = note("m1", "sender", 4, &[&["p", &xx]]);
    first.created_at = NOW + 1;
    let mut second = note("m2", "sender", 4, &[&["p", &xx]]);
    second.created_at = NOW + 2;
    assert_eq!(nostr_server(&mut s, &settings, NOW, Input::Broadcast(first)), vec![]);
    assert_eq!(nostr_server(&mut s, &settings, NOW, event_cmd("AUTH", answer)), vec![]);
    assert_eq!(s.conn().auth_pubkey(), Some(&xx));
    assert_eq!(
        texts(&nostr_server(&mut s, &settings, NOW, Input::Broadcast(second.clone()))),
        vec![format!("[\"EVENT\",\"dm\",{}]", second.to_json())]
    );
}

#[test]
fn failed_authentication_is_reported() {
    let mut settings = Settings::new();
    settings.authorization.nip42_auth = true;
    settings.info.relay_url = Some("wss://relay.example".to_string());
    let mut s = session();
    let answer = signed([8u8; 32], NOW, 22242, &[&["relay", "wss://relay.example"], &["challenge", "c-1"]]);
    let id = answer.id.clone();
    assert_eq!(
        texts(&nostr_server(&mut s, &settings, NOW, event_cmd("AUTH", answer.clone()))),
        vec![format!("[\"OK\",\"{id}\",false,\"restricted: authentication error: No authentication challenge is outstanding\"]")]
    );
    nostr_server(&mut s, &settings, NOW, Input::Connected { challenge: "c-2".to_string() });
    assert_eq!(
        texts(&nostr_server(&mut s, &settings, NOW, event_cmd("AUTH", answer.clone()))),
        vec![format!("[\"OK\",\"{id}\",false,\"restricted: authentication error: Authentication challenge does not match\"]")]
    );
    settings.info.relay_url = None;
    assert_eq!(nostr_server(&mut s, &settings, NOW, event_cmd("AUTH", answer.clone())), vec![]);
    settings.authorization.nip42_auth = false;
    assert_eq!(
        texts(&nostr_server(&mut s, &settings, NOW, event_cmd("AUTH", answer))),
        vec![format!("[\"OK\",\"{id}\",false,\"invalid: Command unknown\"]")]
    );
}

#[test]
fn oversize_frame_is_answered_with_a_notice() {
    let settings = Settings::new();
    let mut s = session();
    let actions = nostr_server(&mut s, &settings, NOW, Input::TooLong { size: 131073, max_size: 131072 });
    assert_eq!(actions, vec![Action::Send("[\"NOTICE\",\"message too large (131073 > 131072)\"]".to_string())]);
    assert!(!s.is_closed());
    assert_eq!(nostr_server(&mut s, &settings, NOW, req("s", by_kind(1))).len(), 1);
}

#[test]
fn oversize_event_is_refused() {
    let mut settings = Settings::new();
    settings.limits.max_event_bytes = Some(100);
    let mut s = session();
    let e = signed([1u8; 32], NOW, 1, &[]);
    let big = Input::Text { message: Some(NostrMessage::EventMsg(EventCmd { cmd: "EVENT".to_string(), event: e.clone() })), len: 101 };
    assert_eq!(texts(&nostr_server(&mut s, &settings, NOW, big)), vec!["[\"NOTICE\",\"event exceeded max size\"]"]);
    let fits = Input::Text { message: Some(NostrMessage::EventMsg(EventCmd { cmd: "EVENT".to_string(), event: e })), len: 100 };
    assert!(matches!(&nostr_server(&mut s, &settings, NOW, fits)[..], [Action::Submit(_)]));
}

#[test]
fn valid_event_is_submitted_with_what_is_known_of_the_client() {
    let settings = Settings::new();
    let mut s = session();
    let e = signed([1u8; 32], NOW, 1, &[]);
    let actions = nostr_server(&mut s, &settings, NOW, event_cmd("EVENT", e.clone()));
    assert_eq!(
        actions,
        vec![Action::Submit(SubmittedEvent {
            event: e,
            source_ip: "10.0.0.1".to_string(),
            origin: None,
            user_agent: Some("agent".to_string()),
            auth_pubkey: None,
        })]
    );
    assert_eq!(s.client_published_event_count(), 1);
}

#[test]
fn submitted_event_carries_the_authenticated_key() {
    let mut settings = Settings::new();
    settings.authorization.nip42_auth = true;
    settings.info.relay_url = Some("r".to_string());
    let mut s = session();
    nostr_server(&mut s, &settings, NOW, Input::Connected { challenge: "c".to_string() });
    let answer = signed([8u8; 32], NOW, 22242, &[&["relay", "r"], &["challenge", "c"]]);
    let key = answer.pubkey.clone();
    nostr_server(&mut s, &settings, NOW, event_cmd("AUTH", answer));
    let e = signed([1u8; 32], NOW, 1, &[]);
    match &nostr_server(&mut s, &settings, NOW, event_cmd("EVENT", e))[..] {
        [Action::Submit(sub)] => assert_eq!(sub.auth_pubkey, Some(hex::decode(&key).unwrap())),
        other => panic!("unexpected actions {other:?}"),
    }
}

#[test]
fn invalid_expired_and_future_events_are_refused() {
    let mut settings = Settings::new();
    settings.options.reject_future_seconds = Some(1800);
    let mut s = session();
    let unsigned = note("abc", "k", 1, &[]);
    assert_eq!(
        texts(&nostr_server(&mut s, &settings, NOW, event_cmd("EVENT", unsigned.clone()))),
        vec!["[\"OK\",\"abc\",false,\"invalid: Event invalid id\"]"]
    );
    assert_eq!(
        texts(&nostr_server(&mut s, &settings, NOW, event_cmd("PUBLISH", unsigned))),
        vec!["[\"OK\",\"abc\",false,\"invalid: Command unknown\"]"]
    );
    let expired = signed([1u8; 32], NOW - 10, 1, &[&["expiration", &NOW.to_string()]]);
    assert_eq!(
        texts(&nostr_server(&mut s, &settings, NOW, event_cmd("EVENT", expired.clone()))),
        vec![format!("[\"OK\",\"{}\",false,\"invalid: The event has already expired\"]", expired.id)]
    );
    let ahead = signed([1u8; 32], NOW + 1801, 1, &[]);
    assert_eq!(
        texts(&nostr_server(&mut s, &settings, NOW, event_cmd("EVENT", ahead.clone()))),
        vec![format!(
            "[\"OK\",\"{}\",false,\"invalid: The event created_at field is out of the acceptable range (+1800sec) for this relay.\"]",
            ahead.id
        )]
    );
    let in_range = signed([1u8; 32], NOW + 1800, 1, &[]);
    assert!(matches!(&nostr_server(&mut s, &settings, NOW, event_cmd("EVENT", in_range))[..], [Action::Submit(_)]));
    assert_eq!(s.client_published_event_count(), 1);
}

#[test]
fn close_cancels_the_query_and_stops_delivery() {
    let settings = Settings::new();
    let mut s = session();
    nostr_server(&mut s, &settings, NOW, req("a", by_kind(1)));
    nostr_server(&mut s, &settings, NOW, req("b", by_kind(1)));
    let end = QueryResult { sub_id: "b".to_string(), event: "EOSE".to_string() };
    nostr_server(&mut s, &settings, NOW, Input::QueryResult { token: 1, result: end, decoded: None });
    assert_eq!(nostr_server(&mut s, &settings, NOW, close("a")), vec![Action::CancelQuery(0)]);
    assert_eq!(nostr_server(&mut s, &settings, NOW, close("a")), vec![]);
    assert_eq!(nostr_server(&mut s, &settings, NOW, close("b")), vec![]);
    let e = note("e", "k", 1, &[]);
    let late = QueryResult { sub_id: "a".to_string(), event: e.to_json() };
    assert_eq!(nostr_server(&mut s, &settings, NOW, Input::QueryResult { token: 0, result: late, decoded: Some(e.clone()) }), vec![]);
    assert_eq!(nostr_server(&mut s, &settings, NOW, Input::Broadcast(e)), vec![]);
    let bad = Input::Text {
        message: Some(NostrMessage::CloseMsg(CloseCmd { cmd: "STOP".to_string(), id: "a".to_string() })),
        len: 1,
    };
    assert_eq!(texts(&nostr_server(&mut s, &settings, NOW, bad)), vec!["[\"NOTICE\",\"could not parse command\"]"]);
}

#[test]
fn subscription_errors_are_reported() {
    let settings = Settings::new();
    let mut s = session();
    let long = "x".repeat(257);
    assert_eq!(
        texts(&nostr_server(&mut s, &settings, NOW, req(&long, by_kind(1)))),
        vec!["[\"NOTICE\",\"Subscription error: Subscription identifier max length exceeded\"]"]
    );
    for i in 0..32 {
        assert_eq!(nostr_server(&mut s, &settings, NOW, req(&format!("s{i}"), by_kind(1))).len(), 1);
    }
    assert_eq!(
        texts(&nostr_server(&mut s, &settings, NOW, req("s32", by_kind(1)))),
        vec!["[\"NOTICE\",\"Subscription error: Maximum concurrent subscription count reached\"]"]
    );
}

#[test]
fn rate_limited_connection_waits_before_it_subscribes() {
    let mut settings = Settings::new();
    settings.limits.subscriptions_per_min = Some(10);
    let mut s = session();
    let actions = nostr_server(&mut s, &settings, NOW, req("s", by_kind(1)));
    assert!(matches!(&actions[..], [Action::AwaitSubscriptionSlot, Action::StartQuery { .. }]));
    assert_eq!(nostr_server(&mut s, &settings, NOW, req("s", by_kind(1))), vec![]);
    settings.limits.subscriptions_per_min = Some(0);
    assert!(matches!(&nostr_server(&mut s, &settings, NOW, req("t", by_kind(1)))[..], [Action::StartQuery { .. }]));
}

#[test]
fn subscription_for_future_events_starts_no_query() {
    let settings = Settings::new();
    let mut s = session();
    let mut f = by_kind(1);
    f.since = Some(NOW);
    assert_eq!(nostr_server(&mut s, &settings, NOW, req("s", f)), vec![]);
    assert_eq!(s.conn().subscription_count(), 1);
    let mut e = note("e", "k", 1, &[]);
    e.created_at = NOW + 5;
    assert_eq!(nostr_server(&mut s, &settings, NOW, Input::Broadcast(e)).len(), 1);
}

#[test]
fn other_frames_and_notices() {
    let settings = Settings::new();
    let mut s = session();
    assert_eq!(texts(&nostr_server(&mut s, &settings, NOW, Input::Binary)), vec!["[\"NOTICE\",\"binary messages are not accepted\"]"]);
    assert_eq!(nostr_server(&mut s, &settings, NOW, Input::Control), vec![]);
    assert_eq!(
        texts(&nostr_server(&mut s, &settings, NOW, Input::Text { message: None, len: 3 })),
        vec!["[\"NOTICE\",\"could not parse command\"]"]
    );
    assert_eq!(
        nostr_server(&mut s, &settings, NOW, Input::Notice(Notice::saved("id".to_string()))),
        vec![Action::Send("[\"OK\",\"id\",true,\"\"]".to_string())]
    );
    assert_eq!(nostr_server(&mut s, &settings, NOW, Input::Connected { challenge: "c".to_string() }), vec![]);
    assert_eq!(nostr_server(&mut s, &settings, NOW, Input::PingTick { idle_seconds: 1200 }), vec![Action::Ping]);
    assert_eq!(
        nostr_server(&mut s, &settings, NOW, Input::PingTick { idle_seconds: 1201 }),
        vec![Action::Disconnect(DisconnectReason::Timeout)]
    );
    assert!(s.is_closed());
}

#[test]
fn shutdown_cancels_queries_and_silences_the_connection() {
    let settings = Settings::new();
    let mut s = session();
    nostr_server(&mut s, &settings, NOW, req("a", by_kind(1)));
    nostr_server(&mut s, &settings, NOW, req("b", by_kind(1)));
    let mut live = by_kind(1);
    live.since = Some(NOW);
    nostr_server(&mut s, &settings, NOW, req("c", live));
    assert_eq!(
        nostr_server(&mut s, &settings, NOW, Input::Shutdown),
        vec![Action::CancelQuery(0), Action::CancelQuery(1), Action::Disconnect(DisconnectReason::Shutdown)]
    );
    assert!(s.is_closed());
    let mut e = note("e", "k", 1, &[]);
    e.created_at = NOW + 1;
    for input in [
        Input::Broadcast(e),
        Input::Notice(Notice::message("late".to_string())),
        Input::PingTick { idle_seconds: 0 },
        Input::Binary,
        Input::Shutdown,
        Input::Closed,
        req("d", by_kind(1)),
        Input::QueryResult { token: 0, result: QueryResult { sub_id: "a".to_string(), event: "EOSE".to_string() }, decoded: None },
    ] {
        assert_eq!(nostr_server(&mut s, &settings, NOW, input), vec![]);
    }
}

#[test]
fn client_close_and_transport_failure_end_the_connection() {
    let settings = Settings::new();
    let mut s = session();
    assert_eq!(nostr_server(&mut s, &settings, NOW, Input::Closed), vec![Action::Disconnect(DisconnectReason::Normal)]);
    let mut t = session();
    nostr_server(&mut t, &settings, NOW, req("a", by_kind(1)));
    assert_eq!(
        nostr_server(&mut t, &settings, NOW, Input::Failed),
        vec![Action::CancelQuery(0), Action::Disconnect(DisconnectReason::Error)]
    );
}

#[test]
fn failed_query_is_reported_and_ends_the_stored_events() {
    let settings = Settings::new();
    let mut s = session();
    nostr_server(&mut s, &settings, NOW, req("a", by_kind(1)));
    let live = note("l", "k", 1, &[]);
    assert_eq!(nostr_server(&mut s, &settings, NOW, Input::Broadcast(live.clone())), vec![]);
    let stale = Input::QueryFailed { token: 7, sub_id: "a".to_string(), error: nostr_rs_relay::db::StoreError::Unavailable };
    assert_eq!(nostr_server(&mut s, &settings, NOW, stale), vec![]);
    let failed = Input::QueryFailed { token: 0, sub_id: "a".to_string(), error: nostr_rs_relay::db::StoreError::Unavailable };
    assert_eq!(
        texts(&nostr_server(&mut s, &settings, NOW, failed)),
        vec![
            "[\"NOTICE\",\"query failed: event store is unavailable\"]".to_string(),
            "[\"EOSE\",\"a\"]".to_string(),
            format!("[\"EVENT\",\"a\",{}]", live.to_json()),
        ]
    );
    let again = Input::QueryFailed { token: 0, sub_id: "a".to_string(), error: nostr_rs_relay::db::StoreError::Conflict };
    assert_eq!(nostr_server(&mut s, &settings, NOW, again), vec![]);
    assert!(!s.is_closed());
}

#[test]
fn corrupt_store_ends_the_connection() {
    let settings = Settings::new();
    let mut s = session();
    nostr_server(&mut s, &settings, NOW, req("a", by_kind(1)));
    let failed = Input::QueryFailed { token: 9, sub_id: "zz".to_string(), error: nostr_rs_relay::db::StoreError::Corrupt };
    assert_eq!(
        nostr_server(&mut s, &settings, NOW, failed),
        vec![Action::CancelQuery(0), Action::Disconnect(DisconnectReason::Error)]
    );
    assert!(s.is_closed());
}

#[test]
fn lagging_behind_is_not_fatal() {
    let settings = Settings::new();
    let mut s = session();
    let mut f = by_kind(1);
    f.since = Some(NOW);
    nostr_server(&mut s, &settings, NOW, req("a", f));
    assert_eq!(nostr_server(&mut s, &settings, NOW, Input::Lagged { missed: 3 }), vec![]);
    assert!(!s.is_closed());
    let mut e = note("e", "k", 1, &[]);
    e.created_at = NOW + 1;
    assert_eq!(nostr_server(&mut s, &settings, NOW, Input::Broadcast(e)).len(), 1);
}

#[test]
fn author_receives_a_direct_message_without_recipient() {
    let mut settings = Settings::new();
    settings.authorization.nip42_auth = true;
    settings.authorization.nip42_dms = true;
    settings.info.relay_url = Some("r".to_string());
    let mut s = session();
    nostr_server(&mut s, &settings, NOW, Input::Connected { challenge: "c".to_string() });
    let mut future = by_kind(4);
    future.since = Some(NOW);
    nostr_server(&mut s, &settings, NOW, req("dm", future));
    let answer = signed([8u8; 32], NOW, 22242, &[&["relay", "r"], &["challenge", "c"]]);
    let me = answer.pubkey.clone();
    let mut own = note("m1", &me, 4, &[]);
    own.created_at = NOW + 1;
    let mut foreign = note("m2", "someone", 4, &[]);
    foreign.created_at = NOW + 1;
    assert_eq!(nostr_server(&mut s, &settings, NOW, Input::Broadcast(own.clone())), vec![]);
    nostr_server(&mut s, &settings, NOW, event_cmd("AUTH", answer));
    let mut again = own.clone();
    again.id = "m3".to_string();
    assert_eq!(
        texts(&nostr_server(&mut s, &settings, NOW, Input::Broadcast(again.clone()))),
        vec![format!("[\"EVENT\",\"dm\",{}]", again.to_json())]
    );
    assert_eq!(nostr_server(&mut s, &settings, NOW, Input::Broadcast(foreign)), vec![]);
    assert!(allowed_to_send(Some(&own), s.conn(), &settings));
}
