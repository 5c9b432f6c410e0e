//! The relay's side of one client connection: what it does with each
//! frame, result and event that reaches the connection.
use vstd::prelude::*;
use vstd::string::*;
use crate::close::CloseCmd;
use crate::config::Settings;
use crate::conn::{
    auth_outcome, closing_cancels_query, eose_frame, event_frame, frames_view, lemma_find,
    lemma_running_queries, make_eose_frame, may_receive, may_receive_stored, opt_event,
    published_sends_once, replacing_cancels_query, stored_events_end_once,
    stored_row_is_sent_once, AuthView, ClientConn, ConnView, Frame, FrameKind, FrameView,
};
use crate::db::{QueryResult, StoreError, SubmittedEvent, SubmittedView};
use crate::error::Error;
use crate::event::{
    lemma_json_is_no_marker, wrapped, Event, EventCmd, EventView, EventWrapper, WrappedView,
};
use crate::json::{json_string, quote};
use crate::notice::{prefixed_view, EventResultStatus, Notice, NoticeView};
use crate::subscription::{Subscription, SubscriptionView};
use crate::text::{
    blob, chars_are, chars_of, decimal, hex_decode, lists, opt_string, push_decimal, split,
    split_chars, str_eq, string_of,
};

verus! {

/// Nostr protocol messages from a client.
#[derive(Debug, Clone, PartialEq)]
pub enum NostrMessage {
    /// `EVENT` and `AUTH` messages.
    EventMsg(EventCmd),
    /// A `REQ` message.
    SubMsg(Subscription),
    /// A `CLOSE` message.
    CloseMsg(CloseCmd),
}

/// Whether a frame of `len` bytes is too large for an event, given the
/// configured limit: a limit that is unset or zero allows every size.
pub open spec fn too_large(len: usize, max_bytes: Option<usize>) -> bool {
    max_bytes matches Some(max) && len > max && max > 0
}

/// Accepts or refuses a text frame. `parsed` is the message that the text
/// of the frame holds, if it holds one, and `len` the size of the frame in
/// bytes. A frame that holds no message is a parse error; a frame with an
/// event is refused when it is larger than `max_bytes`.
pub fn convert_to_msg(parsed: Option<NostrMessage>, len: usize, max_bytes: Option<usize>) -> (r:
    Result<NostrMessage, Error>)
    ensures
        match parsed {
            None => r == Err::<NostrMessage, Error>(Error::ProtoParseError),
            Some(m) => if m is EventMsg && too_large(len, max_bytes) {
                r == Err::<NostrMessage, Error>(Error::EventMaxLengthError(len))
            } else {
                r == Ok::<NostrMessage, Error>(m)
            },
        },
{
    match parsed {
        Some(m) => {
            if let NostrMessage::EventMsg(_) = &m {
                if let Some(max_size) = max_bytes {
                    if len > max_size && max_size > 0 {
                        return Err(Error::EventMaxLengthError(len));
                    }
                }
            }
            Ok(m)
        },
        None => Err(Error::ProtoParseError),
    }
}

/// The text of the frame that carries a notice: a `NOTICE` with its
/// message, an `OK` with the identifier of the event, whether it was
/// accepted, and a message, or an `AUTH` with the challenge.
pub open spec fn notice_text(notice: NoticeView) -> Seq<char> {
    match notice {
        NoticeView::Message(msg) => "[\"NOTICE\","@ + json_string(msg) + "]"@,
        NoticeView::EventResult { id, msg, status } => "[\"OK\","@ + json_string(id) + ","@ + (
        if status.accepted() {
            "true"@
        } else {
            "false"@
        }) + ","@ + json_string(msg) + "]"@,
        NoticeView::AuthChallenge(challenge) => "[\"AUTH\","@ + json_string(challenge) + "]"@,
    }
}

/// Turns a notice into the text of the frame to send.
pub fn make_notice_message(notice: &Notice) -> (r: String)
    ensures
        r@ == notice_text(notice@),
{
    let mut r = String::new();
    match notice {
        Notice::Message(msg) => {
            r.append("[\"NOTICE\",");
            r.append(quote(msg.as_str()).as_str());
            r.append("]");
        },
        Notice::EventResult(res) => {
            r.append("[\"OK\",");
            r.append(quote(res.id.as_str()).as_str());
            r.append(",");
            if res.status.to_bool() {
                r.append("true");
            } else {
                r.append("false");
            }
            r.append(",");
            r.append(quote(res.msg.as_str()).as_str());
            r.append("]");
        },
        Notice::AuthChallenge(challenge) => {
            r.append("[\"AUTH\",");
            r.append(quote(challenge.as_str()).as_str());
            r.append("]");
        },
    }
    r
}

/// Whether what the store returned may be sent to the client of `conn`.
/// `event` is the event that the text from the store holds, if it holds
/// one.
pub fn allowed_to_send(event: Option<&Event>, conn: &ClientConn, settings: &Settings) -> (r: bool)
    ensures
        r == may_receive_stored(
            opt_event(event),
            conn@.auth.pubkey(),
            settings.authorization.nip42_dms,
        ),
{
    if settings.authorization.nip42_dms {
        match event {
            Some(e) => crate::conn::event_allowed(e, conn.auth_pubkey(), true),
            None => false,
        }
    } else {
        true
    }
}

/// The index of the first `=` in `s`, or the length of `s` if it has none.
pub open spec fn first_equals(s: Seq<char>) -> int
    decreases s.len(),
{
    if s.len() == 0 {
        0
    } else if s.first() == '=' {
        0
    } else {
        1 + first_equals(s.drop_first())
    }
}

/// The value that the last pair named `pubkey` gives: what follows its
/// first `=`, or nothing if it has no `=`. A pair's name is what precedes
/// its first `=`.
pub open spec fn pubkey_of(pairs: Seq<Seq<char>>) -> Option<Seq<char>>
    decreases pairs.len(),
{
    if pairs.len() == 0 {
        None
    } else {
        let pair = pairs.last();
        let k = first_equals(pair);
        if pair.take(k) == "pubkey"@ {
            if k < pair.len() {
                Some(pair.skip(k + 1))
            } else {
                None
            }
        } else {
            pubkey_of(pairs.drop_last())
        }
    }
}

/// The `pubkey` parameter of a query string, whose pairs are separated by
/// `&`.
pub open spec fn query_pubkey(query: Seq<char>) -> Option<Seq<char>> {
    pubkey_of(split(query, '&'))
}

fn find_equals(pair: &Vec<char>) -> (k: usize)
    ensures
        k == first_equals(pair@),
        k <= pair.len(),
{
    let mut k: usize = 0;
    assert(pair@.skip(0) =~= pair@);
    while k < pair.len()
        invariant
            k <= pair.len(),
            first_equals(pair@) == k + first_equals(pair@.skip(k as int)),
        decreases pair.len() - k,
    {
        let ghost rest = pair@.skip(k as int);
        assert(rest.drop_first() =~= pair@.skip(k + 1));
        if pair[k] == '=' {
            return k;
        }
        k += 1;
    }
    k
}

/// Gets the `pubkey` parameter from the query string of a request.
pub fn get_pubkey(query: &str) -> (r: Option<String>)
    ensures
        opt_string(r) == query_pubkey(query@),
{
    let chars = chars_of(query);
    let pairs = split_chars(&chars, '&');
    let mut i: usize = pairs.len();
    assert(lists(pairs@).take(i as int) =~= lists(pairs@));
    while i > 0
        invariant
            i <= pairs.len(),
            lists(pairs@) == split(query@, '&'),
            query_pubkey(query@) == pubkey_of(lists(pairs@).take(i as int)),
        decreases i,
    {
        let pair = &pairs[i - 1];
        let ghost cur = lists(pairs@).take(i as int);
        assert(cur.drop_last() =~= lists(pairs@).take(i - 1));
        let k = find_equals(pair);
        let mut name: Vec<char> = Vec::new();
        let mut j: usize = 0;
        while j < k
            invariant
                j <= k,
                k <= pair.len(),
                name@ == pair@.take(j as int),
            decreases k - j,
        {
            name.push(pair[j]);
            j += 1;
        }
        if chars_are(&name, "pubkey") {
            if k < pair.len() {
                let mut value: Vec<char> = Vec::new();
                let mut j: usize = k + 1;
                while j < pair.len()
                    invariant
                        k + 1 <= j <= pair.len(),
                        value@ == pair@.skip(k + 1).take(j - k - 1),
                    decreases pair.len() - j,
                {
                    value.push(pair[j]);
                    j += 1;
                }
                return Some(string_of(&value));
            } else {
                return None;
            }
        }
        i -= 1;
    }
    None
}

/// Seconds without a frame from the client after which the connection is
/// closed.
pub const MAX_QUIET_SECONDS: u64 = 1200;

/// Why a connection ends.
#[derive(Debug, Clone, Copy, PartialEq, Eq, Structural)]
pub enum DisconnectReason {
    /// The relay shuts down.
    Shutdown,
    /// The client was silent for too long.
    Timeout,
    /// The client closed the connection.
    Normal,
    /// The transport failed.
    Error,
}

/// What reaches a connection.
#[derive(Debug, PartialEq)]
pub enum Input {
    /// The connection was opened; `challenge` is fresh random text for the
    /// client to sign if it is asked to authenticate.
    Connected { challenge: String },
    /// The relay shuts down.
    Shutdown,
    /// The keep-alive timer fired; the client's last frame came
    /// `idle_seconds` ago.
    PingTick { idle_seconds: u64 },
    /// A notice for this client.
    Notice(Notice),
    /// A result of the query `token`, with the event that its text holds
    /// where it holds one.
    QueryResult { token: u64, result: QueryResult, decoded: Option<Event> },
    /// The query `token` for the subscription `sub_id` failed.
    QueryFailed { token: u64, sub_id: String, error: StoreError },
    /// An event was published.
    Broadcast(Event),
    /// The connection fell behind and `missed` published events were
    /// dropped before it could take them.
    Lagged { missed: u64 },
    /// A text frame of `len` bytes; `message` is the message that it
    /// holds, if it holds one.
    Text { message: Option<NostrMessage>, len: usize },
    /// A binary frame.
    Binary,
    /// A ping or a pong.
    Control,
    /// A frame of `size` bytes was refused because frames may have at most
    /// `max_size` bytes.
    TooLong { size: usize, max_size: usize },
    /// The client closed the connection.
    Closed,
    /// The transport failed.
    Failed,
}

/// What the connection task is to do.
#[derive(Debug, PartialEq)]
pub enum Action {
    /// Send this text to the client.
    Send(String),
    /// Send this frame of a subscription to the client.
    SendFrame(Frame),
    /// Send a ping to the client.
    Ping,
    /// Hand this event to the writer.
    Submit(SubmittedEvent),
    /// Wait until the client may open another subscription.
    AwaitSubscriptionSlot,
    /// Start the query for the stored events of `sub`, and hand back its
    /// results under `token`.
    StartQuery { token: u64, sub: Subscription },
    /// Cancel the query `token`.
    CancelQuery(u64),
    /// Close the connection.
    Disconnect(DisconnectReason),
}

/// Mathematical model of an [`Action`].
#[verifier::ext_equal]
pub enum ActionView {
    Send(Seq<char>),
    SendFrame(FrameView),
    Ping,
    Submit(SubmittedView),
    AwaitSubscriptionSlot,
    StartQuery { token: u64, sub: SubscriptionView },
    CancelQuery(u64),
    Disconnect(DisconnectReason),
}

impl View for Action {
    type V = ActionView;

    open spec fn view(&self) -> ActionView {
        match self {
            Action::Send(text) => ActionView::Send(text@),
            Action::SendFrame(frame) => ActionView::SendFrame(frame@),
            Action::Ping => ActionView::Ping,
            Action::Submit(e) => ActionView::Submit(e@),
            Action::AwaitSubscriptionSlot => ActionView::AwaitSubscriptionSlot,
            Action::StartQuery { token, sub } => ActionView::StartQuery { token: *token, sub: sub@ },
            Action::CancelQuery(token) => ActionView::CancelQuery(*token),
            Action::Disconnect(reason) => ActionView::Disconnect(*reason),
        }
    }
}

/// The models of a sequence of actions, in order.
pub open spec fn actions_view(actions: Seq<Action>) -> Seq<ActionView> {
    Seq::new(actions.len(), |i: int| actions[i]@)
}

/// The actions that send `frames`, in order.
pub open spec fn frame_actions(frames: Seq<FrameView>) -> Seq<ActionView> {
    Seq::new(frames.len(), |i: int| ActionView::SendFrame(frames[i]))
}

/// The actions that cancel the queries `tokens`, in order.
pub open spec fn cancels(tokens: Seq<u64>) -> Seq<ActionView> {
    Seq::new(tokens.len(), |i: int| ActionView::CancelQuery(tokens[i]))
}

/// The action that cancels the query `token`, if there is one.
pub open spec fn opt_cancel(token: Option<u64>) -> Seq<ActionView> {
    match token {
        Some(t) => seq![ActionView::CancelQuery(t)],
        None => Seq::empty(),
    }
}

/// The action that sends a notice with the text `msg`.
pub open spec fn say(msg: Seq<char>) -> ActionView {
    ActionView::Send(notice_text(NoticeView::Message(msg)))
}

/// The action that answers the event `id` with `status` and `msg`.
pub open spec fn answer_event(id: Seq<char>, msg: Seq<char>, status: EventResultStatus)
    -> ActionView {
    ActionView::Send(notice_text(prefixed_view(id, msg, status)))
}

/// The count after one more; the largest count stays.
pub open spec fn bump(n: u64) -> u64 {
    if n == u64::MAX {
        n
    } else {
        (n + 1) as u64
    }
}

/// What a client is told of a frame that is too long.
pub open spec fn too_long_text(size: usize, max_size: usize) -> Seq<char> {
    "message too large ("@ + decimal(size as nat) + " > "@ + decimal(max_size as nat) + ")"@
}

/// What a client is told of an event that is dated too far ahead.
pub open spec fn future_text(seconds: u64) -> Seq<char> {
    "The event created_at field is out of the acceptable range (+"@ + decimal(seconds as nat)
        + "sec) for this relay."@
}

/// Whether the number of subscriptions a client opens per minute is
/// limited.
pub open spec fn rate_limited(settings: &Settings) -> bool {
    settings.limits.subscriptions_per_min matches Some(n) && n > 0
}

/// Mathematical model of a [`Session`].
#[verifier::ext_equal]
pub struct SessionView {
    /// The connection's state.
    pub conn: ConnView,
    /// The user agent the client named.
    pub user_agent: Option<Seq<char>>,
    /// The origin the client named.
    pub origin: Option<Seq<char>>,
    /// Whether the connection has ended.
    pub closed: bool,
    /// How many events the client has submitted.
    pub client_published: u64,
    /// How many stored events the client was sent.
    pub client_received: u64,
}

impl SessionView {
    /// The connection's state is well formed.
    pub open spec fn wf(self) -> bool {
        self.conn.wf()
    }

    /// The connection ends: every query that still runs is cancelled and
    /// the transport is closed.
    pub open spec fn closing(self, reason: DisconnectReason) -> (SessionView, Seq<ActionView>) {
        (
            SessionView { closed: true, ..self },
            cancels(self.conn.running_queries()).push(ActionView::Disconnect(reason)),
        )
    }

    /// The connection was opened: the client is challenged if
    /// authentication is on.
    pub open spec fn on_connect(self, challenge: Seq<char>, settings: &Settings) -> (
        SessionView,
        Seq<ActionView>,
    ) {
        if settings.authorization.nip42_auth {
            (
                SessionView {
                    conn: ConnView { auth: AuthView::Challenge(challenge), ..self.conn },
                    ..self
                },
                seq![ActionView::Send(notice_text(NoticeView::AuthChallenge(challenge)))],
            )
        } else {
            (self, Seq::empty())
        }
    }

    /// The keep-alive timer fired: a client that was silent for too long
    /// is disconnected, any other is sent a ping.
    pub open spec fn on_ping_tick(self, idle_seconds: u64) -> (SessionView, Seq<ActionView>) {
        if idle_seconds > MAX_QUIET_SECONDS {
            self.closing(DisconnectReason::Timeout)
        } else {
            (self, seq![ActionView::Ping])
        }
    }

    /// A query returned a result.
    pub open spec fn on_query_result(
        self,
        token: u64,
        sub_id: Seq<char>,
        text: Seq<char>,
        decoded: Option<EventView>,
        settings: &Settings,
    ) -> (SessionView, Seq<ActionView>) {
        let (conn, frames) = self.conn.stored(
            token,
            sub_id,
            text,
            decoded,
            settings.authorization.nip42_dms,
        );
        (
            SessionView {
                conn,
                client_received: if text != "EOSE"@ && frames.len() > 0 {
                    bump(self.client_received)
                } else {
                    self.client_received
                },
                ..self
            },
            frame_actions(frames),
        )
    }

    /// A query failed. A store that is corrupt ends the connection. After
    /// any other failure, for a subscription that waits for this query the
    /// client is told so, and the stored events of the subscription end as
    /// if the store had returned all of them; otherwise nothing happens.
    pub open spec fn on_query_failed(
        self,
        token: u64,
        sub_id: Seq<char>,
        error: StoreError,
        settings: &Settings,
    ) -> (SessionView, Seq<ActionView>) {
        if error == StoreError::Corrupt {
            self.closing(DisconnectReason::Error)
        } else if self.conn.awaits(token, sub_id) {
            let (after, actions) = self.on_query_result(token, sub_id, "EOSE"@, None, settings);
            (after, seq![say("query failed: "@ + error.reason_text())] + actions)
        } else {
            (self, Seq::empty())
        }
    }

    /// An event was published.
    pub open spec fn on_broadcast(self, e: EventView, settings: &Settings) -> (
        SessionView,
        Seq<ActionView>,
    ) {
        let (conn, frames) = self.conn.published(e, settings.authorization.nip42_dms);
        (SessionView { conn, ..self }, frame_actions(frames))
    }

    /// The client asks to close a subscription.
    pub open spec fn on_close(self, cmd: Seq<char>, id: Seq<char>) -> (
        SessionView,
        Seq<ActionView>,
    ) {
        if cmd == "CLOSE"@ {
            let (conn, cancelled) = self.conn.unsubscribed(id);
            (SessionView { conn, ..self }, opt_cancel(cancelled))
        } else {
            (self, seq![say("could not parse command"@)])
        }
    }

    /// The client asks to open a subscription. A request that repeats an
    /// open subscription is ignored. Where subscriptions are rate limited
    /// the task first waits for a free slot. A subscription without any
    /// selective condition is, where that is configured, answered with the
    /// end marker alone. Otherwise the subscription is opened, the query it
    /// makes pointless is cancelled, and the query for its stored events is
    /// started if any could match.
    pub open spec fn on_req(self, sub: SubscriptionView, settings: &Settings, now: u64) -> (
        SessionView,
        Seq<ActionView>,
    ) {
        let wait = if rate_limited(settings) {
            seq![ActionView::AwaitSubscriptionSlot]
        } else {
            Seq::empty()
        };
        if self.conn.has_subscription(sub) {
            (self, Seq::empty())
        } else if settings.limits.limit_scrapers && sub.is_scraper() {
            (self, wait.push(ActionView::SendFrame(eose_frame(sub.id))))
        } else {
            match self.conn.subscribed(sub, sub.needs_historical(now)) {
                Ok(r) => (
                    SessionView { conn: r.conn, ..self },
                    wait + opt_cancel(r.cancelled) + (if sub.needs_historical(now) {
                        seq![ActionView::StartQuery { token: r.token, sub }]
                    } else {
                        Seq::empty()
                    }),
                ),
                Err(e) => (self, wait.push(say("Subscription error: "@ + e.message_text()))),
            }
        }
    }

    /// The event that is handed to the writer for `e`.
    pub open spec fn submission(self, e: EventView) -> SubmittedView {
        SubmittedView {
            event: e,
            source_ip: self.conn.client_ip,
            origin: self.origin,
            user_agent: self.user_agent,
            auth_pubkey: match self.conn.auth.pubkey() {
                Some(k) => blob(k),
                None => None,
            },
        }
    }

    /// The client sent an event command. A valid event that has not
    /// expired and is not dated too far ahead goes to the writer; an
    /// answer to the challenge is checked; everything else is refused with
    /// its reason.
    pub open spec fn on_event(self, cmd: Seq<char>, e: EventView, settings: &Settings, now: u64)
        -> (SessionView, Seq<ActionView>) {
        match wrapped(cmd, e) {
            Ok(WrappedView::Event(ev)) => {
                if ev.is_expired(now) {
                    (
                        self,
                        seq![
                            answer_event(
                                ev.id,
                                "The event has already expired"@,
                                EventResultStatus::Invalid,
                            ),
                        ],
                    )
                } else if ev.is_within_future_bound(now, settings.options.reject_future_seconds) {
                    (
                        SessionView { client_published: bump(self.client_published), ..self },
                        seq![ActionView::Submit(self.submission(ev))],
                    )
                } else {
                    (
                        self,
                        seq![
                            answer_event(
                                ev.id,
                                future_text(settings.options.reject_future_seconds->0),
                                EventResultStatus::Invalid,
                            ),
                        ],
                    )
                }
            },
            Ok(WrappedView::Auth(ev)) => {
                if settings.authorization.nip42_auth {
                    match opt_string(settings.info.relay_url) {
                        None => (self, Seq::empty()),
                        Some(relay) => match auth_outcome(self.conn.auth, ev, relay) {
                            Ok(auth) => (
                                SessionView { conn: ConnView { auth, ..self.conn }, ..self },
                                Seq::empty(),
                            ),
                            Err(err) => (
                                self,
                                seq![
                                    answer_event(
                                        ev.id,
                                        "authentication error: "@ + err.message_text(),
                                        EventResultStatus::Restricted,
                                    ),
                                ],
                            ),
                        },
                    }
                } else {
                    (
                        self,
                        seq![
                            answer_event(
                                e.id,
                                Error::CommandUnknownError.message_text(),
                                EventResultStatus::Invalid,
                            ),
                        ],
                    )
                }
            },
            Err(err) => (
                self,
                seq![answer_event(e.id, err.message_text(), EventResultStatus::Invalid)],
            ),
        }
    }

    /// The client sent a text frame.
    pub open spec fn on_text(
        self,
        message: Option<NostrMessage>,
        len: usize,
        settings: &Settings,
        now: u64,
    ) -> (SessionView, Seq<ActionView>) {
        match message {
            None => (self, seq![say("could not parse command"@)]),
            Some(NostrMessage::EventMsg(ec)) => if too_large(len, settings.limits.max_event_bytes) {
                (self, seq![say("event exceeded max size"@)])
            } else {
                self.on_event(ec.cmd@, ec.event@, settings, now)
            },
            Some(NostrMessage::SubMsg(sub)) => self.on_req(sub@, settings, now),
            Some(NostrMessage::CloseMsg(cc)) => self.on_close(cc.cmd@, cc.id@),
        }
    }

    /// What the connection does with `input` at time `now`, and its state
    /// afterwards. A connection that has ended does nothing.
    pub open spec fn step(self, input: Input, settings: &Settings, now: u64) -> (
        SessionView,
        Seq<ActionView>,
    ) {
        if self.closed {
            (self, Seq::empty())
        } else {
            match input {
                Input::Connected { challenge } => self.on_connect(challenge@, settings),
                Input::Shutdown => self.closing(DisconnectReason::Shutdown),
                Input::PingTick { idle_seconds } => self.on_ping_tick(idle_seconds),
                Input::Notice(n) => (self, seq![ActionView::Send(notice_text(n@))]),
                Input::QueryResult { token, result, decoded } => self.on_query_result(
                    token,
                    result.sub_id@,
                    result.event@,
                    match decoded {
                        Some(e) => Some(e@),
                        None => None,
                    },
                    settings,
                ),
                Input::QueryFailed { token, sub_id, error } => self.on_query_failed(
                    token,
                    sub_id@,
                    error,
                    settings,
                ),
                Input::Broadcast(e) => self.on_broadcast(e@, settings),
                Input::Lagged { missed } => (self, Seq::empty()),
                Input::Text { message, len } => self.on_text(message, len, settings, now),
                Input::Binary => (self, seq![say("binary messages are not accepted"@)]),
                Input::Control => (self, Seq::empty()),
                Input::TooLong { size, max_size } => (
                    self,
                    seq![say(too_long_text(size, max_size))],
                ),
                Input::Closed => self.closing(DisconnectReason::Normal),
                Input::Failed => self.closing(DisconnectReason::Error),
            }
        }
    }
}

/// What is known of the client of a connection when it is opened.
#[derive(Debug, Clone, PartialEq)]
pub struct ClientInfo {
    /// Address of the client.
    pub remote_ip: String,
    /// The user agent the client named.
    pub user_agent: Option<String>,
    /// The origin the client named.
    pub origin: Option<String>,
}

/// One client connection as the relay serves it.
pub struct Session {
    conn: ClientConn,
    user_agent: Option<String>,
    origin: Option<String>,
    closed: bool,
    client_published: u64,
    client_received: u64,
}

impl View for Session {
    type V = SessionView;

    closed spec fn view(&self) -> SessionView {
        SessionView {
            conn: self.conn@,
            user_agent: opt_string(self.user_agent),
            origin: opt_string(self.origin),
            closed: self.closed,
            client_published: self.client_published,
            client_received: self.client_received,
        }
    }
}

fn clone_opt_string(s: &Option<String>) -> (r: Option<String>)
    ensures
        opt_string(r) == opt_string(*s),
{
    match s {
        Some(t) => Some(t.clone()),
        None => None,
    }
}

fn bumped(n: u64) -> (r: u64)
    ensures
        r == bump(n),
{
    if n == u64::MAX {
        n
    } else {
        n + 1
    }
}

fn notice_action(msg: &str) -> (a: Action)
    ensures
        a@ == say(msg@),
{
    Action::Send(make_notice_message(&Notice::message(msg.to_owned())))
}

fn push_frames(actions: &mut Vec<Action>, frames: Vec<Frame>)
    ensures
        actions_view(final(actions)@) == actions_view(old(actions)@) + frame_actions(
            frames_view(frames@),
        ),
{
    let ghost all = frames@;
    let ghost start = actions_view(actions@);
    for frame in it: frames
        invariant
            it.seq() == all,
            actions_view(actions@) == start + frame_actions(
                frames_view(all.take(it.index() as int)),
            ),
    {
        let ghost before = actions_view(actions@);
        actions.push(Action::SendFrame(frame));
        assert(actions_view(actions@) =~= before.push(ActionView::SendFrame(frame@)));
    }
}

impl Session {
    /// The session of a connection that was just accepted, known as
    /// `client_id`.
    pub fn new(info: ClientInfo, client_id: String) -> (s: Session)
        ensures
            s@.wf(),
            s@ == (SessionView {
                conn: ConnView {
                    client_ip: info.remote_ip@,
                    client_id: client_id@,
                    auth: AuthView::NoAuth,
                    entries: Seq::empty(),
                    next_token: 0,
                },
                user_agent: opt_string(info.user_agent),
                origin: opt_string(info.origin),
                closed: false,
                client_published: 0,
                client_received: 0,
            }),
    {
        Session {
            conn: ClientConn::new(info.remote_ip, client_id),
            user_agent: info.user_agent,
            origin: info.origin,
            closed: false,
            client_published: 0,
            client_received: 0,
        }
    }

    /// The connection's state.
    pub fn conn(&self) -> (c: &ClientConn)
        ensures
            c@ == self@.conn,
    {
        &self.conn
    }

    /// Whether the connection has ended.
    pub fn is_closed(&self) -> (r: bool)
        ensures
            r == self@.closed,
    {
        self.closed
    }

    /// How many events the client has submitted.
    pub fn client_published_event_count(&self) -> (n: u64)
        ensures
            n == self@.client_published,
    {
        self.client_published
    }

    /// How many stored events the client was sent.
    pub fn client_received_event_count(&self) -> (n: u64)
        ensures
            n == self@.client_received,
    {
        self.client_received
    }

    fn close(&mut self, reason: DisconnectReason) -> (actions: Vec<Action>)
        requires
            old(self)@.wf(),
        ensures
            final(self)@.wf(),
            final(self)@ == old(self)@.closing(reason).0,
            actions_view(actions@) == old(self)@.closing(reason).1,
    {
        let tokens = self.conn.running_queries();
        let mut actions: Vec<Action> = Vec::new();
        let mut i: usize = 0;
        while i < tokens.len()
            invariant
                i <= tokens.len(),
                actions@.len() == i,
                forall|j: int| 0 <= j < i ==> (#[trigger] actions@[j])@ == ActionView::CancelQuery(
                    tokens@[j],
                ),
            decreases tokens.len() - i,
        {
            actions.push(Action::CancelQuery(tokens[i]));
            i += 1;
        }
        actions.push(Action::Disconnect(reason));
        self.closed = true;
        actions
    }

    fn on_query_result(
        &mut self,
        token: u64,
        result: &QueryResult,
        decoded: Option<&Event>,
        settings: &Settings,
    ) -> (actions: Vec<Action>)
        requires
            old(self)@.wf(),
        ensures
            final(self)@.wf(),
            final(self)@ == old(self)@.on_query_result(
                token,
                result.sub_id@,
                result.event@,
                opt_event(decoded),
                settings,
            ).0,
            actions_view(actions@) == old(self)@.on_query_result(
                token,
                result.sub_id@,
                result.event@,
                opt_event(decoded),
                settings,
            ).1,
    {
        let frames = self.conn.deliver_stored(
            token,
            result,
            decoded,
            settings.authorization.nip42_dms,
        );
        if frames.len() > 0 && !str_eq(result.event.as_str(), "EOSE") {
            self.client_received = bumped(self.client_received);
        }
        let mut actions: Vec<Action> = Vec::new();
        push_frames(&mut actions, frames);
        actions
    }

    fn on_broadcast(&mut self, event: &Event, settings: &Settings) -> (actions: Vec<Action>)
        requires
            old(self)@.wf(),
        ensures
            final(self)@.wf(),
            final(self)@ == old(self)@.on_broadcast(event@, settings).0,
            actions_view(actions@) == old(self)@.on_broadcast(event@, settings).1,
    {
        let frames = self.conn.deliver_published(event, settings.authorization.nip42_dms);
        let mut actions: Vec<Action> = Vec::new();
        push_frames(&mut actions, frames);
        actions
    }

    fn on_close(&mut self, cc: CloseCmd) -> (actions: Vec<Action>)
        requires
            old(self)@.wf(),
        ensures
            final(self)@.wf(),
            final(self)@ == old(self)@.on_close(cc.cmd@, cc.id@).0,
            actions_view(actions@) == old(self)@.on_close(cc.cmd@, cc.id@).1,
    {
        let mut actions: Vec<Action> = Vec::new();
        match cc.into_close() {
            Ok(c) => {
                match self.conn.unsubscribe(c.id.as_str()) {
                    Some(token) => {
                        actions.push(Action::CancelQuery(token));
                    },
                    None => {},
                }
            },
            Err(_) => {
                actions.push(notice_action("could not parse command"));
            },
        }
        actions
    }
}

fn event_answer(id: String, msg: &str, status: EventResultStatus) -> (a: Action)
    requires
        status == EventResultStatus::Invalid || status == EventResultStatus::Restricted,
    ensures
        a@ == answer_event(id@, msg@, status),
{
    match status {
        EventResultStatus::Restricted => Action::Send(
            make_notice_message(&Notice::restricted(id, msg)),
        ),
        _ => Action::Send(make_notice_message(&Notice::invalid(id, msg))),
    }
}

impl Session {
    fn on_req(&mut self, sub: Subscription, settings: &Settings, now: u64) -> (actions: Vec<Action>)
        requires
            old(self)@.wf(),
        ensures
            final(self)@.wf(),
            final(self)@ == old(self)@.on_req(sub@, settings, now).0,
            actions_view(actions@) == old(self)@.on_req(sub@, settings, now).1,
    {
        let mut actions: Vec<Action> = Vec::new();
        if self.conn.has_subscription(&sub) {
            return actions;
        }
        let limited = match settings.limits.subscriptions_per_min {
            Some(n) => n > 0,
            None => false,
        };
        if limited {
            actions.push(Action::AwaitSubscriptionSlot);
        }
        if settings.limits.limit_scrapers && sub.is_scraper() {
            let frame = Frame {
                kind: FrameKind::Eose,
                sub_id: sub.get_id(),
                event_id: None,
                text: make_eose_frame(sub.id.as_str()),
            };
            actions.push(Action::SendFrame(frame));
            return actions;
        }
        let needs_history = sub.needs_historical_events(now);
        let query = sub.clone();
        match self.conn.subscribe(sub, needs_history) {
            Ok((token, cancelled)) => {
                match cancelled {
                    Some(old_token) => {
                        actions.push(Action::CancelQuery(old_token));
                    },
                    None => {},
                }
                if needs_history {
                    actions.push(Action::StartQuery { token, sub: query });
                }
            },
            Err(e) => {
                let mut msg = String::new();
                msg.append("Subscription error: ");
                msg.append(e.message().as_str());
                actions.push(notice_action(msg.as_str()));
            },
        }
        actions
    }

    fn submit(&self, event: Event) -> (a: Action)
        ensures
            a@ == ActionView::Submit(self@.submission(event@)),
    {
        let auth_pubkey = match self.conn.auth_pubkey() {
            Some(k) => hex_decode(k.as_str()),
            None => None,
        };
        Action::Submit(
            SubmittedEvent {
                event,
                source_ip: self.conn.ip().to_owned(),
                origin: clone_opt_string(&self.origin),
                user_agent: clone_opt_string(&self.user_agent),
                auth_pubkey,
            },
        )
    }

    fn on_event(&mut self, ec: EventCmd, settings: &Settings, now: u64) -> (actions: Vec<Action>)
        requires
            old(self)@.wf(),
        ensures
            final(self)@.wf(),
            final(self)@ == old(self)@.on_event(ec.cmd@, ec.event@, settings, now).0,
            actions_view(actions@) == old(self)@.on_event(ec.cmd@, ec.event@, settings, now).1,
    {
        let mut actions: Vec<Action> = Vec::new();
        let evid = ec.event_id().to_owned();
        match ec.into_wrapper() {
            Ok(EventWrapper::WrappedEvent(e)) => {
                if e.is_expired(now) {
                    actions.push(
                        event_answer(
                            e.id.clone(),
                            "The event has already expired",
                            EventResultStatus::Invalid,
                        ),
                    );
                } else if e.is_valid_timestamp(now, settings.options.reject_future_seconds) {
                    actions.push(self.submit(e));
                    self.client_published = bumped(self.client_published);
                } else {
                    match settings.options.reject_future_seconds {
                        Some(seconds) => {
                            let mut msg = String::new();
                            msg.append(
                                "The event created_at field is out of the acceptable range (+",
                            );
                            push_decimal(&mut msg, seconds);
                            msg.append("sec) for this relay.");
                            actions.push(
                                event_answer(e.id.clone(), msg.as_str(), EventResultStatus::Invalid),
                            );
                        },
                        None => {},
                    }
                }
            },
            Ok(EventWrapper::WrappedAuth(event)) => {
                if settings.authorization.nip42_auth {
                    match &settings.info.relay_url {
                        None => {},
                        Some(relay) => {
                            match self.conn.authenticate(&event, relay.as_str()) {
                                Ok(_) => {},
                                Err(e) => {
                                    let mut msg = String::new();
                                    msg.append("authentication error: ");
                                    msg.append(e.message().as_str());
                                    actions.push(
                                        event_answer(
                                            event.id.clone(),
                                            msg.as_str(),
                                            EventResultStatus::Restricted,
                                        ),
                                    );
                                },
                            }
                        },
                    }
                } else {
                    let e = Error::CommandUnknownError;
                    actions.push(
                        event_answer(evid, e.message().as_str(), EventResultStatus::Invalid),
                    );
                }
            },
            Err(e) => {
                actions.push(event_answer(evid, e.message().as_str(), EventResultStatus::Invalid));
            },
        }
        actions
    }
}

impl Session {
    fn on_text(&mut self, message: Option<NostrMessage>, len: usize, settings: &Settings, now: u64)
        -> (actions: Vec<Action>)
        requires
            old(self)@.wf(),
        ensures
            final(self)@.wf(),
            final(self)@ == old(self)@.on_text(message, len, settings, now).0,
            actions_view(actions@) == old(self)@.on_text(message, len, settings, now).1,
    {
        match convert_to_msg(message, len, settings.limits.max_event_bytes) {
            Ok(NostrMessage::EventMsg(ec)) => self.on_event(ec, settings, now),
            Ok(NostrMessage::SubMsg(sub)) => self.on_req(sub, settings, now),
            Ok(NostrMessage::CloseMsg(cc)) => self.on_close(cc),
            Err(Error::EventMaxLengthError(_)) => {
                let mut actions: Vec<Action> = Vec::new();
                actions.push(notice_action("event exceeded max size"));
                actions
            },
            Err(_) => {
                let mut actions: Vec<Action> = Vec::new();
                actions.push(notice_action("could not parse command"));
                actions
            },
        }
    }

    fn on_connect(&mut self, challenge: String, settings: &Settings) -> (actions: Vec<Action>)
        requires
            old(self)@.wf(),
        ensures
            final(self)@.wf(),
            final(self)@ == old(self)@.on_connect(challenge@, settings).0,
            actions_view(actions@) == old(self)@.on_connect(challenge@, settings).1,
    {
        let mut actions: Vec<Action> = Vec::new();
        if settings.authorization.nip42_auth {
            let notice = Notice::AuthChallenge(challenge.clone());
            actions.push(Action::Send(make_notice_message(&notice)));
            self.conn.generate_auth_challenge(challenge);
        }
        actions
    }
}

/// Serves one client connection: takes what reached the connection at
/// time `now` and returns what the connection task is to do, in order.
pub fn nostr_server(session: &mut Session, settings: &Settings, now: u64, input: Input) -> (actions:
    Vec<Action>)
    requires
        old(session)@.wf(),
    ensures
        final(session)@.wf(),
        final(session)@ == old(session)@.step(input, settings, now).0,
        actions_view(actions@) == old(session)@.step(input, settings, now).1,
{
    let mut actions: Vec<Action> = Vec::new();
    if session.closed {
        return actions;
    }
    match input {
        Input::Connected { challenge } => session.on_connect(challenge, settings),
        Input::Shutdown => session.close(DisconnectReason::Shutdown),
        Input::PingTick { idle_seconds } => {
            if idle_seconds > MAX_QUIET_SECONDS {
                session.close(DisconnectReason::Timeout)
            } else {
                actions.push(Action::Ping);
                actions
            }
        },
        Input::Notice(n) => {
            actions.push(Action::Send(make_notice_message(&n)));
            actions
        },
        Input::QueryResult { token, result, decoded } => {
            match &decoded {
                Some(e) => session.on_query_result(token, &result, Some(e), settings),
                None => session.on_query_result(token, &result, None, settings),
            }
        },
        Input::QueryFailed { token, sub_id, error } => {
            if error == StoreError::Corrupt {
                return session.close(DisconnectReason::Error);
            }
            if session.conn.is_waiting_for(token, sub_id.as_str()) {
                let mut msg = String::new();
                msg.append("query failed: ");
                msg.append(error.reason());
                actions.push(notice_action(msg.as_str()));
                let end = QueryResult { sub_id, event: "EOSE".to_owned() };
                let mut sent = session.on_query_result(token, &end, None, settings);
                actions.append(&mut sent);
            }
            actions
        },
        Input::Broadcast(e) => session.on_broadcast(&e, settings),
        Input::Lagged { missed: _ } => {
            actions
        },
        Input::Text { message, len } => session.on_text(message, len, settings, now),
        Input::Binary => {
            actions.push(notice_action("binary messages are not accepted"));
            actions
        },
        Input::Control => {
            actions
        },
        Input::TooLong { size, max_size } => {
            let mut msg = String::new();
            msg.append("message too large (");
            push_decimal(&mut msg, size as u64);
            msg.append(" > ");
            push_decimal(&mut msg, max_size as u64);
            msg.append(")");
            actions.push(notice_action(msg.as_str()));
            actions
        },
        Input::Closed => session.close(DisconnectReason::Normal),
        Input::Failed => session.close(DisconnectReason::Error),
    }
}

/// Whether an action sends something to the client.
pub open spec fn sends(action: ActionView) -> bool {
    action is Send || action is SendFrame || action is Ping
}

/// A connection that is closed, for whatever reason, sends nothing more:
/// the step that closes it only cancels queries and closes the transport,
/// it cancels every query that still runs, and every later step does
/// nothing at all.
pub proof fn closed_connection_is_silent(
    s: SessionView,
    reason: DisconnectReason,
    later: Input,
    settings: &Settings,
    now: u64,
)
    ensures
        s.closing(reason).0.closed,
        forall|k: int|
            0 <= k < s.closing(reason).1.len() ==> !sends(#[trigger] s.closing(reason).1[k]),
        forall|i: int|
            0 <= i < s.conn.entries.len() && !(#[trigger] s.conn.entries[i]).live
                ==> s.closing(reason).1.contains(ActionView::CancelQuery(s.conn.entries[i].token)),
        s.closing(reason).0.step(later, settings, now) == (
            s.closing(reason).0,
            Seq::<ActionView>::empty(),
        ),
{
    let actions = s.closing(reason).1;
    let tokens = s.conn.running_queries();
    assert forall|i: int|
        0 <= i < s.conn.entries.len() && !(#[trigger] s.conn.entries[i]).live
            implies actions.contains(ActionView::CancelQuery(s.conn.entries[i].token)) by {
        lemma_running_queries(s.conn.entries, s.conn.entries.len(), i);
        let k = choose|k: int| 0 <= k < tokens.len() && tokens[k] == s.conn.entries[i].token;
        assert(actions[k] == ActionView::CancelQuery(tokens[k]));
    }
}

/// The shutdown of the relay closes a connection that is open, and so do
/// a client that is silent for too long, a client that leaves and a
/// transport that fails.
pub proof fn shutdown_closes(s: SessionView, settings: &Settings, now: u64)
    requires
        !s.closed,
    ensures
        s.step(Input::Shutdown, settings, now) == s.closing(DisconnectReason::Shutdown),
        s.step(Input::Closed, settings, now) == s.closing(DisconnectReason::Normal),
        s.step(Input::Failed, settings, now) == s.closing(DisconnectReason::Error),
        forall|idle: u64|
            idle > MAX_QUIET_SECONDS ==> #[trigger] s.step(
                Input::PingTick { idle_seconds: idle },
                settings,
                now,
            ) == s.closing(DisconnectReason::Timeout),
{
}

/// What a client sees of an event that was stored before it subscribed:
/// when the client opens a subscription that is served with a query, the
/// query is started; when the store then returns the event and the end of
/// the stored events, the client is sent one frame with the stored event
/// and then one frame with the end marker, and nothing else.
pub proof fn subscription_replays_stored_event(
    s: SessionView,
    sub: SubscriptionView,
    e: EventView,
    settings: &Settings,
    now: u64,
)
    requires
        s.wf(),
        !s.closed,
        !s.conn.has_subscription(sub),
        !(settings.limits.limit_scrapers && sub.is_scraper()),
        sub.needs_historical(now),
        s.conn.subscribed(sub, true) is Ok,
        may_receive(e, s.conn.auth.pubkey(), settings.authorization.nip42_dms),
    ensures
        ({
            let token = s.conn.next_token;
            let (s1, a1) = s.on_req(sub, settings, now);
            let (s2, a2) = s1.on_query_result(token, sub.id, e.json(), Some(e), settings);
            let (s3, a3) = s2.on_query_result(token, sub.id, "EOSE"@, None, settings);
            &&& a1.len() >= 1
            &&& a1.last() == ActionView::StartQuery { token, sub }
            &&& forall|k: int| 0 <= k < a1.len() ==> !sends(#[trigger] a1[k])
            &&& a2 == seq![
                ActionView::SendFrame(event_frame(FrameKind::Stored, sub.id, e.id, e.json())),
            ]
            &&& a3 == seq![ActionView::SendFrame(eose_frame(sub.id))]
            &&& s3.wf()
        }),
{
    let token = s.conn.next_token;
    let (s1, a1) = s.on_req(sub, settings, now);
    replacing_cancels_query(s.conn, sub, true);
    lemma_json_is_no_marker(e);
    lemma_find(s1.conn.entries, sub.id);
    stored_row_is_sent_once(
        s1.conn,
        token,
        sub.id,
        e.json(),
        Some(e),
        settings.authorization.nip42_dms,
    );
    let (s2, a2) = s1.on_query_result(token, sub.id, e.json(), Some(e), settings);
    lemma_find(s2.conn.entries, sub.id);
    let (s3, a3) = s2.on_query_result(token, sub.id, "EOSE"@, None, settings);
}

/// Whatever reaches a connection, its subscriptions keep distinct names
/// and none is ever sent an event twice.
pub proof fn step_keeps_subscriptions_sound(
    s: SessionView,
    input: Input,
    settings: &Settings,
    now: u64,
)
    requires
        s.wf(),
    ensures
        s.step(input, settings, now).0.wf(),
{
    let restricted = settings.authorization.nip42_dms;
    match input {
        Input::QueryResult { token, result, decoded } if !s.closed => {
            let d = match decoded {
                Some(e) => Some(e@),
                None => None,
            };
            if s.conn.awaits(token, result.sub_id@) {
                if result.event@ == "EOSE"@ {
                    stored_events_end_once(s.conn, token, result.sub_id@, d, restricted);
                } else {
                    stored_row_is_sent_once(
                        s.conn,
                        token,
                        result.sub_id@,
                        result.event@,
                        d,
                        restricted,
                    );
                }
            }
        },
        Input::QueryFailed { token, sub_id, error } if !s.closed => {
            if error != StoreError::Corrupt && s.conn.awaits(token, sub_id@) {
                stored_events_end_once(s.conn, token, sub_id@, None, restricted);
            }
        },
        Input::Broadcast(e) if !s.closed => {
            if s.conn.entries.len() > 0 {
                published_sends_once(s.conn, e@, restricted, 0);
            }
        },
        Input::Text { message, len } if !s.closed => {
            match message {
                Some(NostrMessage::SubMsg(sub)) => {
                    if s.conn.subscribed(sub@, sub@.needs_historical(now)) is Ok {
                        replacing_cancels_query(s.conn, sub@, sub@.needs_historical(now));
                    }
                },
                Some(NostrMessage::CloseMsg(cc)) => {
                    closing_cancels_query(s.conn, cc.id@);
                },
                _ => {},
            }
        },
        _ => {},
    }
}

} // verus!
