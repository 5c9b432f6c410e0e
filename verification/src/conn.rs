//! State of one client connection: who the client is, whether it has
//! authenticated, and its subscriptions with what each was sent.
use vstd::prelude::*;
use vstd::string::*;
use crate::db::QueryResult;
use crate::error::Error;
use crate::event::{Event, EventView};
use crate::json::{json_string, quote};
use crate::subscription::{Subscription, SubscriptionView};
use crate::text::{chars_of, contains_string, push_char, str_eq, strs};

verus! {

/// Longest accepted subscription name, in characters.
pub const MAX_SUBSCRIPTION_ID_LEN: usize = 256;

/// Largest number of subscriptions one connection may hold.
pub const MAX_SUBSCRIPTIONS: usize = 32;

/// How far a connection is with authentication.
#[derive(Debug, Clone, PartialEq)]
pub enum AuthState {
    /// No challenge was sent.
    NoAuth,
    /// The challenge that was sent and not yet answered.
    Challenge(String),
    /// The public key the client has proved to hold.
    AuthPubkey(String),
}

/// Mathematical model of an [`AuthState`].
#[verifier::ext_equal]
pub enum AuthView {
    NoAuth,
    Challenge(Seq<char>),
    AuthPubkey(Seq<char>),
}

impl View for AuthState {
    type V = AuthView;

    open spec fn view(&self) -> AuthView {
        match self {
            AuthState::NoAuth => AuthView::NoAuth,
            AuthState::Challenge(c) => AuthView::Challenge(c@),
            AuthState::AuthPubkey(k) => AuthView::AuthPubkey(k@),
        }
    }
}

impl AuthView {
    /// The public key the client has proved to hold, if any.
    pub open spec fn pubkey(self) -> Option<Seq<char>> {
        match self {
            AuthView::AuthPubkey(k) => Some(k),
            _ => None,
        }
    }
}

/// The value of the last tag of exactly two elements that is named `name`.
pub open spec fn binding(tags: Seq<Seq<Seq<char>>>, name: Seq<char>) -> Option<Seq<char>>
    decreases tags.len(),
{
    if tags.len() == 0 {
        None
    } else {
        let t = tags.last();
        if t.len() == 2 && t[0] == name {
            Some(t[1])
        } else {
            binding(tags.drop_last(), name)
        }
    }
}

/// What an authentication attempt leads to: the error, or the state
/// afterwards. An attempt succeeds when a challenge is outstanding, the
/// event is valid, and its `challenge` and `relay` tags name the challenge
/// that was sent and this relay; the connection then holds the event's
/// public key. On a connection that has already authenticated the attempt
/// succeeds and changes nothing.
pub open spec fn auth_outcome(auth: AuthView, event: EventView, relay_url: Seq<char>) -> Result<
    AuthView,
    Error,
> {
    match auth {
        AuthView::NoAuth => Err(Error::AuthNoChallenge),
        AuthView::AuthPubkey(_) => Ok(auth),
        AuthView::Challenge(sent) => {
            if event.validation() is Err {
                Err(Error::AuthBadSignature)
            } else if binding(event.tags, "challenge"@) != Some(sent) {
                Err(Error::AuthWrongChallenge)
            } else if binding(event.tags, "relay"@) != Some(relay_url) {
                Err(Error::AuthWrongChallenge)
            } else {
                Ok(AuthView::AuthPubkey(event.pubkey))
            }
        },
    }
}

/// Looks up the value of the last two-element tag named `name`.
pub fn find_binding<'a>(event: &'a Event, name: &str) -> (r: Option<&'a String>)
    ensures
        match r {
            Some(v) => binding(event@.tags, name@) == Some(v@),
            None => binding(event@.tags, name@) is None,
        },
{
    let mut i: usize = event.tags.len();
    assert(event@.tags.take(i as int) =~= event@.tags);
    while i > 0
        invariant
            i <= event.tags.len(),
            binding(event@.tags, name@) == binding(event@.tags.take(i as int), name@),
        decreases i,
    {
        let tag = &event.tags[i - 1];
        let ghost cur = event@.tags.take(i as int);
        assert(cur.drop_last() =~= event@.tags.take(i - 1));
        if tag.len() == 2 && str_eq(tag[0].as_str(), name) {
            return Some(&tag[1]);
        }
        i -= 1;
    }
    None
}

/// Whether events of this kind are direct messages.
pub open spec fn is_direct_message(kind: u64) -> bool {
    kind == 4 || kind == 44 || kind == 1059
}

/// Whether an event may be sent to a client that holds `auth_pubkey`. With
/// the restriction on, a direct message goes only to a client that has
/// authenticated as its author or as its first named recipient.
pub open spec fn may_receive(e: EventView, auth_pubkey: Option<Seq<char>>, restricted: bool)
    -> bool {
    if restricted && is_direct_message(e.kind) {
        match auth_pubkey {
            Some(k) => e.pubkey == k || (e.pubkey_refs().len() > 0 && e.pubkey_refs()[0] == k),
            None => false,
        }
    } else {
        true
    }
}

/// Whether what the store returned may be sent: an event by
/// [`may_receive`]; text that is no event only where direct messages are
/// not restricted.
pub open spec fn may_receive_stored(
    decoded: Option<EventView>,
    auth_pubkey: Option<Seq<char>>,
    restricted: bool,
) -> bool {
    match decoded {
        Some(e) => may_receive(e, auth_pubkey, restricted),
        None => !restricted,
    }
}

/// The frame that carries an event to a subscription: the array of the
/// word `EVENT`, the name as a JSON string, and the event.
pub open spec fn event_frame_text(sub_id: Seq<char>, json: Seq<char>) -> Seq<char> {
    "[\"EVENT\","@ + json_string(sub_id) + ","@ + json + "]"@
}

/// The frame that ends the stored events of a subscription: the array of
/// the word `EOSE` and the name as a JSON string.
pub open spec fn eose_frame_text(sub_id: Seq<char>) -> Seq<char> {
    "[\"EOSE\","@ + json_string(sub_id) + "]"@
}

/// Writes the frame that carries an event to a subscription.
pub fn make_event_frame(sub_id: &str, json: &str) -> (r: String)
    ensures
        r@ == event_frame_text(sub_id@, json@),
{
    let mut r = String::new();
    r.append("[\"EVENT\",");
    r.append(quote(sub_id).as_str());
    r.append(",");
    r.append(json);
    r.append("]");
    r
}

/// Writes the frame that ends the stored events of a subscription.
pub fn make_eose_frame(sub_id: &str) -> (r: String)
    ensures
        r@ == eose_frame_text(sub_id@),
{
    let mut r = String::new();
    r.append("[\"EOSE\",");
    r.append(quote(sub_id).as_str());
    r.append("]");
    r
}

/// What a frame for a subscription carries.
#[derive(Debug, Clone, Copy, PartialEq, Eq, Structural)]
pub enum FrameKind {
    /// An event from the store.
    Stored,
    /// An event that was published while the subscription was open.
    Live,
    /// The end of the stored events.
    Eose,
}

/// A frame for one subscription of the client.
#[derive(Debug, Clone, PartialEq)]
pub struct Frame {
    /// What the frame carries.
    pub kind: FrameKind,
    /// Name of the subscription.
    pub sub_id: String,
    /// Identifier of the event it carries, where that is known.
    pub event_id: Option<String>,
    /// The text to send.
    pub text: String,
}

/// Mathematical model of a [`Frame`].
#[verifier::ext_equal]
pub struct FrameView {
    pub kind: FrameKind,
    pub sub_id: Seq<char>,
    pub event_id: Option<Seq<char>>,
    pub text: Seq<char>,
}

impl View for Frame {
    type V = FrameView;

    open spec fn view(&self) -> FrameView {
        FrameView {
            kind: self.kind,
            sub_id: self.sub_id@,
            event_id: match self.event_id {
                Some(id) => Some(id@),
                None => None,
            },
            text: self.text@,
        }
    }
}

/// The models of a sequence of frames, in order.
pub open spec fn frames_view(frames: Seq<Frame>) -> Seq<FrameView> {
    Seq::new(frames.len(), |i: int| frames[i]@)
}

/// The frame that carries the event `id` with text `json` to `sub_id`.
pub open spec fn event_frame(kind: FrameKind, sub_id: Seq<char>, id: Seq<char>, json: Seq<char>)
    -> FrameView {
    FrameView { kind, sub_id, event_id: Some(id), text: event_frame_text(sub_id, json) }
}

/// The frame that ends the stored events of `sub_id`.
pub open spec fn eose_frame(sub_id: Seq<char>) -> FrameView {
    FrameView { kind: FrameKind::Eose, sub_id, event_id: None, text: eose_frame_text(sub_id) }
}

/// One subscription of a connection and what it was sent.
#[verifier::ext_equal]
pub struct EntryView {
    /// The subscription.
    pub sub: SubscriptionView,
    /// Token of the query that reads its stored events.
    pub token: u64,
    /// Whether its stored events have ended.
    pub live: bool,
    /// Published events held back until the stored events have ended.
    pub pending: Seq<EventView>,
    /// Identifiers of the events it was sent.
    pub delivered: Seq<Seq<char>>,
}

/// `frames` with `frame` added, if there is one.
pub open spec fn with_frame(frames: Seq<FrameView>, frame: Option<FrameView>) -> Seq<FrameView> {
    match frame {
        Some(f) => frames.push(f),
        None => frames,
    }
}

impl EntryView {
    /// A subscription that was just opened.
    pub open spec fn fresh(sub: SubscriptionView, token: u64, needs_history: bool) -> EntryView {
        EntryView {
            sub,
            token,
            live: !needs_history,
            pending: Seq::empty(),
            delivered: Seq::empty(),
        }
    }

    /// Sends the event `id` unless it may not be sent or was sent before.
    pub open spec fn deliver(self, kind: FrameKind, id: Seq<char>, json: Seq<char>, allowed: bool)
        -> (EntryView, Option<FrameView>) {
        if allowed && !self.delivered.contains(id) {
            (
                EntryView { delivered: self.delivered.push(id), ..self },
                Some(event_frame(kind, self.sub.id, id, json)),
            )
        } else {
            (self, None)
        }
    }

    /// Takes an event that was published: an event of no interest changes
    /// nothing; before the stored events have ended it is held back;
    /// afterwards it is sent.
    pub open spec fn on_published(
        self,
        e: EventView,
        auth_pubkey: Option<Seq<char>>,
        restricted: bool,
    ) -> (EntryView, Option<FrameView>) {
        if !self.sub.matches(e) {
            (self, None)
        } else if !self.live {
            (EntryView { pending: self.pending.push(e), ..self }, None)
        } else {
            self.deliver(FrameKind::Live, e.id, e.json(), may_receive(e, auth_pubkey, restricted))
        }
    }

    /// Takes one row of the stored events. Text that is no event is sent
    /// as it is where that is allowed.
    pub open spec fn on_row(
        self,
        text: Seq<char>,
        decoded: Option<EventView>,
        auth_pubkey: Option<Seq<char>>,
        restricted: bool,
    ) -> (EntryView, Option<FrameView>) {
        let allowed = may_receive_stored(decoded, auth_pubkey, restricted);
        match decoded {
            Some(e) => self.deliver(FrameKind::Stored, e.id, text, allowed),
            None => if allowed {
                (
                    self,
                    Some(
                        FrameView {
                            kind: FrameKind::Stored,
                            sub_id: self.sub.id,
                            event_id: None,
                            text: event_frame_text(self.sub.id, text),
                        },
                    ),
                )
            } else {
                (self, None)
            },
        }
    }

    /// Sends the first `n` of the events that were held back, in the order
    /// in which they came.
    pub open spec fn flush(self, n: nat, auth_pubkey: Option<Seq<char>>, restricted: bool) -> (
        EntryView,
        Seq<FrameView>,
    )
        decreases n,
    {
        if n == 0 || n > self.pending.len() {
            (self, Seq::empty())
        } else {
            let (entry, frames) = self.flush((n - 1) as nat, auth_pubkey, restricted);
            let e = self.pending[n - 1];
            let (next, frame) = entry.deliver(
                FrameKind::Live,
                e.id,
                e.json(),
                may_receive(e, auth_pubkey, restricted),
            );
            (next, with_frame(frames, frame))
        }
    }

    /// Ends the stored events: the end marker is sent, then every event
    /// that was held back, and the subscription is live.
    pub open spec fn on_end(self, auth_pubkey: Option<Seq<char>>, restricted: bool) -> (
        EntryView,
        Seq<FrameView>,
    ) {
        let (entry, frames) = self.flush(self.pending.len(), auth_pubkey, restricted);
        (
            EntryView { live: true, pending: Seq::empty(), ..entry },
            seq![eose_frame(self.sub.id)] + frames,
        )
    }
}

/// The index of the entry named `id`, if there is one.
pub open spec fn find(entries: Seq<EntryView>, id: Seq<char>) -> Option<int>
    decreases entries.len(),
{
    if entries.len() == 0 {
        None
    } else {
        match find(entries.drop_last(), id) {
            Some(i) => Some(i),
            None => if entries.last().sub.id == id {
                Some(entries.len() - 1)
            } else {
                None
            },
        }
    }
}

/// The entries after the first `n` of them have taken a published event,
/// and the frames that this sends, in the order of the entries.
pub open spec fn publish_to(
    entries: Seq<EntryView>,
    n: nat,
    e: EventView,
    auth_pubkey: Option<Seq<char>>,
    restricted: bool,
) -> (Seq<EntryView>, Seq<FrameView>)
    decreases n,
{
    if n == 0 || n > entries.len() {
        (entries, Seq::empty())
    } else {
        let (es, fs) = publish_to(entries, (n - 1) as nat, e, auth_pubkey, restricted);
        let (entry, frame) = entries[n - 1].on_published(e, auth_pubkey, restricted);
        (es.update(n - 1, entry), with_frame(fs, frame))
    }
}

/// The tokens of the first `n` entries whose stored events have not ended.
pub open spec fn outstanding(entries: Seq<EntryView>, n: nat) -> Seq<u64>
    decreases n,
{
    if n == 0 || n > entries.len() {
        Seq::empty()
    } else {
        let rest = outstanding(entries, (n - 1) as nat);
        if entries[n - 1].live {
            rest
        } else {
            rest.push(entries[n - 1].token)
        }
    }
}

/// The token after `t`; after the largest comes zero.
pub open spec fn next_token(t: u64) -> u64 {
    if t == u64::MAX {
        0
    } else {
        (t + 1) as u64
    }
}

/// Mathematical model of a [`ClientConn`].
#[verifier::ext_equal]
pub struct ConnView {
    /// Address of the client.
    pub client_ip: Seq<char>,
    /// Identifier of the connection.
    pub client_id: Seq<char>,
    /// How far the client is with authentication.
    pub auth: AuthView,
    /// The subscriptions, oldest first.
    pub entries: Seq<EntryView>,
    /// The token the next query gets.
    pub next_token: u64,
}

/// What opening a subscription changes.
#[verifier::ext_equal]
pub struct Subscribed {
    /// The connection afterwards.
    pub conn: ConnView,
    /// Token of the query for the new subscription.
    pub token: u64,
    /// Token of the query that the new subscription makes pointless.
    pub cancelled: Option<u64>,
}

impl ConnView {
    /// No two subscriptions share a name, and there are no more than
    /// allowed.
    pub open spec fn names_distinct(self) -> bool {
        &&& self.entries.len() <= MAX_SUBSCRIPTIONS
        &&& forall|i: int, j: int|
            0 <= i < j < self.entries.len() ==> (#[trigger] self.entries[i]).sub.id != (
            #[trigger] self.entries[j]).sub.id
    }

    /// Whether no subscription was sent an event twice.
    pub open spec fn sent_once(self) -> bool {
        forall|i: int|
            0 <= i < self.entries.len() ==> (#[trigger] self.entries[i]).delivered.no_duplicates()
    }

    /// The state of a connection is well formed: its subscriptions have
    /// distinct names, are no more than allowed, and none was sent an
    /// event twice.
    pub open spec fn wf(self) -> bool {
        self.names_distinct() && self.sent_once()
    }

    /// Whether a subscription with this name and these filters is open.
    pub open spec fn has_subscription(self, sub: SubscriptionView) -> bool {
        exists|i: int| 0 <= i < self.entries.len() && (#[trigger] self.entries[i]).sub == sub
    }

    /// The connection after an event was published, and the frames sent.
    pub open spec fn published(self, e: EventView, restricted: bool) -> (ConnView, Seq<FrameView>) {
        let (entries, frames) = publish_to(
            self.entries,
            self.entries.len(),
            e,
            self.auth.pubkey(),
            restricted,
        );
        (ConnView { entries, ..self }, frames)
    }

    /// The connection after the query `token` of `sub_id` returned `text`,
    /// and the frames sent. What comes for a subscription that is closed,
    /// has another query or has seen its stored events end is dropped.
    pub open spec fn stored(
        self,
        token: u64,
        sub_id: Seq<char>,
        text: Seq<char>,
        decoded: Option<EventView>,
        restricted: bool,
    ) -> (ConnView, Seq<FrameView>) {
        match find(self.entries, sub_id) {
            Some(i) => {
                let entry = self.entries[i];
                if entry.token != token || entry.live {
                    (self, Seq::empty())
                } else if text == "EOSE"@ {
                    let (next, frames) = entry.on_end(self.auth.pubkey(), restricted);
                    (ConnView { entries: self.entries.update(i, next), ..self }, frames)
                } else {
                    let (next, frame) = entry.on_row(text, decoded, self.auth.pubkey(), restricted);
                    (
                        ConnView { entries: self.entries.update(i, next), ..self },
                        with_frame(Seq::empty(), frame),
                    )
                }
            },
            None => (self, Seq::empty()),
        }
    }

    /// What opening `sub` leads to. A name that is too long is refused. A
    /// name in use is given to the new subscription, and the query of the
    /// old one is cancelled if its stored events have not ended. A new name
    /// is refused when the connection holds as many subscriptions as
    /// allowed.
    pub open spec fn subscribed(self, sub: SubscriptionView, needs_history: bool) -> Result<
        Subscribed,
        Error,
    > {
        let entry = EntryView::fresh(sub, self.next_token, needs_history);
        if sub.id.len() > MAX_SUBSCRIPTION_ID_LEN {
            Err(Error::SubIdMaxLengthError)
        } else {
            match find(self.entries, sub.id) {
                Some(i) => Ok(
                    Subscribed {
                        conn: ConnView {
                            entries: self.entries.update(i, entry),
                            next_token: next_token(self.next_token),
                            ..self
                        },
                        token: self.next_token,
                        cancelled: if self.entries[i].live {
                            None
                        } else {
                            Some(self.entries[i].token)
                        },
                    },
                ),
                None => if self.entries.len() >= MAX_SUBSCRIPTIONS {
                    Err(Error::SubMaxExceededError)
                } else {
                    Ok(
                        Subscribed {
                            conn: ConnView {
                                entries: self.entries.push(entry),
                                next_token: next_token(self.next_token),
                                ..self
                            },
                            token: self.next_token,
                            cancelled: None,
                        },
                    )
                },
            }
        }
    }

    /// The connection after the subscription `id` was closed, and the query
    /// to cancel: that of the subscription if its stored events have not
    /// ended.
    pub open spec fn unsubscribed(self, id: Seq<char>) -> (ConnView, Option<u64>) {
        match find(self.entries, id) {
            Some(i) => (
                ConnView { entries: self.entries.remove(i), ..self },
                if self.entries[i].live {
                    None
                } else {
                    Some(self.entries[i].token)
                },
            ),
            None => (self, None),
        }
    }

    /// The tokens of the queries that still run, oldest subscription first.
    pub open spec fn running_queries(self) -> Seq<u64> {
        outstanding(self.entries, self.entries.len())
    }
}

/// The entry that `find` returns is named as asked, and no earlier one is.
pub proof fn lemma_find(entries: Seq<EntryView>, id: Seq<char>)
    ensures
        match find(entries, id) {
            Some(i) => 0 <= i < entries.len() && entries[i].sub.id == id && forall|j: int|
                0 <= j < i ==> (#[trigger] entries[j]).sub.id != id,
            None => forall|j: int| 0 <= j < entries.len() ==> (#[trigger] entries[j]).sub.id != id,
        },
    decreases entries.len(),
{
    if entries.len() > 0 {
        lemma_find(entries.drop_last(), id);
        assert(forall|j: int|
            0 <= j < entries.len() - 1 ==> entries.drop_last()[j] == #[trigger] entries[j]);
    }
}

struct SubEntry {
    sub: Subscription,
    token: u64,
    live: bool,
    pending: Vec<Event>,
    delivered: Vec<String>,
}

spec fn events_view(events: Seq<Event>) -> Seq<EventView> {
    Seq::new(events.len(), |i: int| events[i]@)
}

impl View for SubEntry {
    type V = EntryView;

    closed spec fn view(&self) -> EntryView {
        EntryView {
            sub: self.sub@,
            token: self.token,
            live: self.live,
            pending: events_view(self.pending@),
            delivered: strs(self.delivered@),
        }
    }
}

spec fn entries_view(entries: Seq<SubEntry>) -> Seq<EntryView> {
    Seq::new(entries.len(), |i: int| entries[i]@)
}

/// The text of an optional string.
pub open spec fn opt_text(key: Option<&String>) -> Option<Seq<char>> {
    match key {
        Some(k) => Some(k@),
        None => None,
    }
}

/// Whether an event may be sent to a client that holds `auth_pubkey`.
pub fn event_allowed(event: &Event, auth_pubkey: Option<&String>, restricted: bool) -> (r: bool)
    ensures
        r == may_receive(
            event@,
            opt_text(auth_pubkey),
            restricted,
        ),
{
    if restricted && (event.kind == 4 || event.kind == 44 || event.kind == 1059) {
        match auth_pubkey {
            Some(k) => {
                if str_eq(event.pubkey.as_str(), k.as_str()) {
                    true
                } else {
                    let recipients = event.get_pubkey_tags();
                    recipients.len() > 0 && str_eq(recipients[0].as_str(), k.as_str())
                }
            },
            None => false,
        }
    } else {
        true
    }
}

impl SubEntry {
    fn deliver(&mut self, kind: FrameKind, id: &str, json: &str, allowed: bool) -> (frame: Option<
        Frame,
    >)
        ensures
            final(self)@ == old(self)@.deliver(kind, id@, json@, allowed).0,
            match frame {
                Some(f) => old(self)@.deliver(kind, id@, json@, allowed).1 == Some(f@),
                None => old(self)@.deliver(kind, id@, json@, allowed).1 is None,
            },
    {
        if allowed && !contains_string(&self.delivered, id) {
            let text = make_event_frame(self.sub.id.as_str(), json);
            self.delivered.push(id.to_owned());
            Some(Frame { kind, sub_id: self.sub.id.clone(), event_id: Some(id.to_owned()), text })
        } else {
            None
        }
    }

    fn on_published(&mut self, event: &Event, auth_pubkey: Option<&String>, restricted: bool) -> (frame:
        Option<Frame>)
        ensures
            final(self)@ == old(self)@.on_published(
                event@,
                opt_text(auth_pubkey),
                restricted,
            ).0,
            match frame {
                Some(f) => old(self)@.on_published(
                    event@,
                    opt_text(auth_pubkey),
                    restricted,
                ).1 == Some(f@),
                None => old(self)@.on_published(
                    event@,
                    opt_text(auth_pubkey),
                    restricted,
                ).1 is None,
            },
    {
        if !self.sub.interested_in_event(event) {
            None
        } else if !self.live {
            self.pending.push(event.clone());
            None
        } else {
            let allowed = event_allowed(event, auth_pubkey, restricted);
            let json = event.to_json();
            self.deliver(FrameKind::Live, event.id.as_str(), json.as_str(), allowed)
        }
    }
}

impl SubEntry {
    fn on_row(
        &mut self,
        text: &str,
        decoded: Option<&Event>,
        auth_pubkey: Option<&String>,
        restricted: bool,
    ) -> (frame: Option<Frame>)
        ensures
            final(self)@ == old(self)@.on_row(
                text@,
                opt_event(decoded),
                opt_text(auth_pubkey),
                restricted,
            ).0,
            match frame {
                Some(f) => old(self)@.on_row(
                    text@,
                    opt_event(decoded),
                    opt_text(auth_pubkey),
                    restricted,
                ).1 == Some(f@),
                None => old(self)@.on_row(
                    text@,
                    opt_event(decoded),
                    opt_text(auth_pubkey),
                    restricted,
                ).1 is None,
            },
    {
        match decoded {
            Some(e) => {
                let allowed = event_allowed(e, auth_pubkey, restricted);
                self.deliver(FrameKind::Stored, e.id.as_str(), text, allowed)
            },
            None => {
                if !restricted {
                    Some(
                        Frame {
                            kind: FrameKind::Stored,
                            sub_id: self.sub.id.clone(),
                            event_id: None,
                            text: make_event_frame(self.sub.id.as_str(), text),
                        },
                    )
                } else {
                    None
                }
            },
        }
    }

    fn on_end(&mut self, auth_pubkey: Option<&String>, restricted: bool) -> (frames: Vec<Frame>)
        ensures
            final(self)@ == old(self)@.on_end(opt_text(auth_pubkey), restricted).0,
            frames_view(frames@) == old(self)@.on_end(opt_text(auth_pubkey), restricted).1,
    {
        let mut frames: Vec<Frame> = Vec::new();
        frames.push(
            Frame {
                kind: FrameKind::Eose,
                sub_id: self.sub.id.clone(),
                event_id: None,
                text: make_eose_frame(self.sub.id.as_str()),
            },
        );
        let mut pending: Vec<Event> = Vec::new();
        std::mem::swap(&mut self.pending, &mut pending);
        let ghost start = old(self)@;
        let ghost key = opt_text(auth_pubkey);
        let mut i: usize = 0;
        while i < pending.len()
            invariant
                i <= pending.len(),
                events_view(pending@) == start.pending,
                key == opt_text(auth_pubkey),
                self@ == (EntryView {
                    pending: Seq::empty(),
                    ..start.flush(i as nat, key, restricted).0
                }),
                frames_view(frames@) == seq![eose_frame(start.sub.id)] + start.flush(
                    i as nat,
                    key,
                    restricted,
                ).1,
            decreases pending.len() - i,
        {
            let e = &pending[i];
            let allowed = event_allowed(e, auth_pubkey, restricted);
            let json = e.to_json();
            let ghost before = frames_view(frames@);
            let frame = self.deliver(FrameKind::Live, e.id.as_str(), json.as_str(), allowed);
            match frame {
                Some(f) => {
                    frames.push(f);
                    assert(frames_view(frames@) =~= before.push(f@));
                },
                None => {},
            }
            i += 1;
        }
        self.live = true;
        frames
    }
}

/// The model of an optional event.
pub open spec fn opt_event(e: Option<&Event>) -> Option<EventView> {
    match e {
        Some(x) => Some(x@),
        None => None,
    }
}

/// State of one client connection.
pub struct ClientConn {
    client_ip_addr: String,
    client_id: String,
    subscriptions: Vec<SubEntry>,
    auth: AuthState,
    next_token: u64,
}

impl View for ClientConn {
    type V = ConnView;

    closed spec fn view(&self) -> ConnView {
        ConnView {
            client_ip: self.client_ip_addr@,
            client_id: self.client_id@,
            auth: self.auth@,
            entries: entries_view(self.subscriptions@),
            next_token: self.next_token,
        }
    }
}

impl ClientConn {
    /// A connection from `client_ip_addr` that is known as `client_id`,
    /// without subscriptions and not authenticated.
    pub fn new(client_ip_addr: String, client_id: String) -> (c: ClientConn)
        ensures
            c@ == (ConnView {
                client_ip: client_ip_addr@,
                client_id: client_id@,
                auth: AuthView::NoAuth,
                entries: Seq::empty(),
                next_token: 0,
            }),
            c@.wf(),
    {
        let c = ClientConn {
            client_ip_addr,
            client_id,
            subscriptions: Vec::new(),
            auth: AuthState::NoAuth,
            next_token: 0,
        };
        c
    }

    /// Address of the client.
    pub fn ip(&self) -> (r: &str)
        ensures
            r@ == self@.client_ip,
    {
        self.client_ip_addr.as_str()
    }

    /// The first eight characters of the connection's identifier.
    pub fn get_client_prefix(&self) -> (r: String)
        ensures
            r@ == self@.client_id.take(
                if self@.client_id.len() <= 8 {
                    self@.client_id.len() as int
                } else {
                    8
                },
            ),
    {
        let chars = chars_of(self.client_id.as_str());
        let mut r = String::new();
        let mut i: usize = 0;
        while i < chars.len() && i < 8
            invariant
                i <= chars.len(),
                i <= 8,
                chars@ == self.client_id@,
                r@ == self.client_id@.take(i as int),
            decreases chars.len() - i,
        {
            push_char(&mut r, chars[i]);
            i += 1;
        }
        r
    }

    /// The public key the client has proved to hold, if any.
    pub fn auth_pubkey(&self) -> (r: Option<&String>)
        ensures
            opt_text(r) == self@.auth.pubkey(),
    {
        match &self.auth {
            AuthState::AuthPubkey(k) => Some(k),
            _ => None,
        }
    }

    /// The challenge that waits for an answer, if any.
    pub fn auth_challenge(&self) -> (r: Option<&String>)
        ensures
            opt_text(r) == (match self@.auth {
                AuthView::Challenge(c) => Some(c),
                _ => None,
            }),
    {
        match &self.auth {
            AuthState::Challenge(c) => Some(c),
            _ => None,
        }
    }

    /// Records that `challenge` was sent to the client.
    pub fn generate_auth_challenge(&mut self, challenge: String)
        ensures
            final(self)@ == (ConnView { auth: AuthView::Challenge(challenge@), ..old(self)@ }),
    {
        self.auth = AuthState::Challenge(challenge);
    }

    /// Takes the client's answer to the challenge.
    pub fn authenticate(&mut self, event: &Event, relay_url: &str) -> (r: Result<(), Error>)
        ensures
            match auth_outcome(old(self)@.auth, event@, relay_url@) {
                Ok(auth) => r is Ok && final(self)@ == (ConnView { auth, ..old(self)@ }),
                Err(e) => r == Err::<(), Error>(e) && final(self)@ == old(self)@,
            },
    {
        match &self.auth {
            AuthState::NoAuth => {
                return Err(Error::AuthNoChallenge);
            },
            AuthState::AuthPubkey(_) => {
                return Ok(());
            },
            AuthState::Challenge(sent) => {
                if event.validate().is_err() {
                    return Err(Error::AuthBadSignature);
                }
                match find_binding(event, "challenge") {
                    Some(c) => {
                        if !str_eq(c.as_str(), sent.as_str()) {
                            return Err(Error::AuthWrongChallenge);
                        }
                    },
                    None => {
                        return Err(Error::AuthWrongChallenge);
                    },
                }
                match find_binding(event, "relay") {
                    Some(u) => {
                        if !str_eq(u.as_str(), relay_url) {
                            return Err(Error::AuthWrongChallenge);
                        }
                    },
                    None => {
                        return Err(Error::AuthWrongChallenge);
                    },
                }
            },
        }
        self.auth = AuthState::AuthPubkey(event.pubkey.clone());
        Ok(())
    }

    /// The number of open subscriptions.
    pub fn subscription_count(&self) -> (n: usize)
        ensures
            n == self@.entries.len(),
    {
        self.subscriptions.len()
    }

    fn position(&self, id: &str) -> (r: Option<usize>)
        ensures
            match r {
                Some(i) => find(self@.entries, id@) == Some(i as int) && i < self@.entries.len(),
                None => find(self@.entries, id@) is None,
            },
    {
        let mut i: usize = 0;
        while i < self.subscriptions.len()
            invariant
                i <= self.subscriptions.len(),
                find(self@.entries.take(i as int), id@) is None,
            decreases self.subscriptions.len() - i,
        {
            assert(self@.entries.take(i + 1).drop_last() =~= self@.entries.take(i as int));
            if str_eq(self.subscriptions[i].sub.id.as_str(), id) {
                proof {
                    lemma_find_prefix(self@.entries, i + 1, id@);
                }
                return Some(i);
            }
            i += 1;
        }
        assert(self@.entries.take(i as int) =~= self@.entries);
        None
    }

    /// Whether a subscription with this name and these filters is open.
    pub fn has_subscription(&self, sub: &Subscription) -> (r: bool)
        ensures
            r == self@.has_subscription(sub@),
    {
        let mut i: usize = 0;
        while i < self.subscriptions.len()
            invariant
                i <= self.subscriptions.len(),
                forall|j: int| 0 <= j < i ==> (#[trigger] self@.entries[j]).sub != sub@,
            decreases self.subscriptions.len() - i,
        {
            if self.subscriptions[i].sub.same_as(sub) {
                assert(self@.entries[i as int].sub == sub@);
                return true;
            }
            i += 1;
        }
        false
    }
}

/// What is found among the first `n` entries is found among all.
pub proof fn lemma_find_prefix(entries: Seq<EntryView>, n: int, id: Seq<char>)
    requires
        0 <= n <= entries.len(),
        find(entries.take(n), id) is Some,
    ensures
        find(entries, id) == find(entries.take(n), id),
    decreases entries.len() - n,
{
    if n < entries.len() {
        assert(entries.take(n + 1).drop_last() =~= entries.take(n));
        lemma_find_prefix(entries, n + 1, id);
    } else {
        assert(entries.take(n) =~= entries);
    }
}

impl ClientConn {
    /// Opens `sub`, in place of a subscription of the same name if there is
    /// one. `needs_history` says whether a query for stored events will
    /// run. Returns the token for that query and, where the new
    /// subscription takes the place of one whose query still runs, the
    /// token of the query to cancel.
    pub fn subscribe(&mut self, sub: Subscription, needs_history: bool) -> (r: Result<
        (u64, Option<u64>),
        Error,
    >)
        requires
            old(self)@.wf(),
        ensures
            final(self)@.wf(),
            match old(self)@.subscribed(sub@, needs_history) {
                Ok(s) => final(self)@ == s.conn && r == Ok::<(u64, Option<u64>), Error>(
                    (s.token, s.cancelled),
                ),
                Err(e) => r == Err::<(u64, Option<u64>), Error>(e) && final(self)@ == old(self)@,
            },
    {
        if sub.id.as_str().unicode_len() > MAX_SUBSCRIPTION_ID_LEN {
            return Err(Error::SubIdMaxLengthError);
        }
        let token = self.next_token;
        let found = self.position(sub.id.as_str());
        proof {
            lemma_find(self@.entries, sub@.id);
        }
        let ghost before = self@;
        let entry = SubEntry {
            sub,
            token,
            live: !needs_history,
            pending: Vec::new(),
            delivered: Vec::new(),
        };
        assert(entry@ =~= EntryView::fresh(sub@, token, needs_history));
        let cancelled = match found {
            Some(i) => {
                let cancelled = if self.subscriptions[i].live {
                    None
                } else {
                    Some(self.subscriptions[i].token)
                };
                self.subscriptions[i] = entry;
                assert(self@.entries =~= before.entries.update(i as int, entry@));
                cancelled
            },
            None => {
                if self.subscriptions.len() >= MAX_SUBSCRIPTIONS {
                    return Err(Error::SubMaxExceededError);
                }
                self.subscriptions.push(entry);
                assert(self@.entries =~= before.entries.push(entry@));
                None
            },
        };
        self.next_token = if token == u64::MAX {
            0
        } else {
            token + 1
        };
        Ok((token, cancelled))
    }

    /// Closes the subscription `id`. Returns the token of its query if its
    /// stored events have not ended.
    pub fn unsubscribe(&mut self, id: &str) -> (cancelled: Option<u64>)
        requires
            old(self)@.wf(),
        ensures
            final(self)@.wf(),
            final(self)@ == old(self)@.unsubscribed(id@).0,
            cancelled == old(self)@.unsubscribed(id@).1,
    {
        let ghost before = self@;
        match self.position(id) {
            Some(i) => {
                let entry = self.subscriptions.remove(i);
                assert(self@.entries =~= before.entries.remove(i as int));
                if entry.live {
                    None
                } else {
                    Some(entry.token)
                }
            },
            None => None,
        }
    }

    /// Takes an event that was published and returns the frames to send
    /// for it, one for each subscription it is delivered to.
    pub fn deliver_published(&mut self, event: &Event, restricted: bool) -> (frames: Vec<Frame>)
        requires
            old(self)@.wf(),
        ensures
            final(self)@.wf(),
            final(self)@ == old(self)@.published(event@, restricted).0,
            frames_view(frames@) == old(self)@.published(event@, restricted).1,
    {
        let mut frames: Vec<Frame> = Vec::new();
        let ghost before = self@;
        let ghost key = before.auth.pubkey();
        let mut i: usize = 0;
        proof {
            if before.entries.len() > 0 {
                published_sends_once(before, event@, restricted, 0);
            }
        }
        while i < self.subscriptions.len()
            invariant
                i <= self.subscriptions.len(),
                before.wf(),
                key == before.auth.pubkey(),
                self@ == (ConnView {
                    entries: publish_to(before.entries, i as nat, event@, key, restricted).0,
                    ..before
                }),
                self@.entries.len() == before.entries.len(),
                forall|j: int|
                    0 <= j < self@.entries.len() ==> (#[trigger] self@.entries[j]).sub
                        == before.entries[j].sub,
                forall|j: int|
                    i <= j < self@.entries.len() ==> #[trigger] self@.entries[j]
                        == before.entries[j],
                frames_view(frames@) == publish_to(
                    before.entries,
                    i as nat,
                    event@,
                    key,
                    restricted,
                ).1,
            decreases self.subscriptions.len() - i,
        {
            let ghost entries_before = self@.entries;
            let auth_pubkey = match &self.auth {
                AuthState::AuthPubkey(k) => Some(k),
                _ => None,
            };
            let entry = &mut self.subscriptions[i];
            let frame = entry.on_published(event, auth_pubkey, restricted);
            let ghost step = before.entries[i as int].on_published(event@, key, restricted);
            assert(entries_before[i as int] == before.entries[i as int]);
            assert(self@.entries =~= entries_before.update(i as int, step.0));
            match frame {
                Some(f) => {
                    frames.push(f);
                },
                None => {},
            }
            i += 1;
        }
        frames
    }

    /// Whether the query `token` is the one that reads the stored events
    /// of the open subscription `sub_id`, and they have not ended.
    pub fn is_waiting_for(&self, token: u64, sub_id: &str) -> (r: bool)
        ensures
            r == self@.awaits(token, sub_id@),
    {
        match self.position(sub_id) {
            Some(i) => self.subscriptions[i].token == token && !self.subscriptions[i].live,
            None => false,
        }
    }

    /// The tokens of the queries that still run, oldest subscription first.
    pub fn running_queries(&self) -> (tokens: Vec<u64>)
        ensures
            tokens@ == self@.running_queries(),
    {
        let mut tokens: Vec<u64> = Vec::new();
        let mut i: usize = 0;
        while i < self.subscriptions.len()
            invariant
                i <= self.subscriptions.len(),
                tokens@ == outstanding(self@.entries, i as nat),
            decreases self.subscriptions.len() - i,
        {
            if !self.subscriptions[i].live {
                tokens.push(self.subscriptions[i].token);
            }
            i += 1;
        }
        tokens
    }
}

impl ClientConn {
    /// Takes what the query `token` returned for a subscription, with the
    /// event that the text holds where it holds one, and returns the
    /// frames to send: the event, or the end marker followed by the events
    /// that were held back.
    pub fn deliver_stored(
        &mut self,
        token: u64,
        result: &QueryResult,
        decoded: Option<&Event>,
        restricted: bool,
    ) -> (frames: Vec<Frame>)
        requires
            old(self)@.wf(),
        ensures
            final(self)@.wf(),
            final(self)@ == old(self)@.stored(
                token,
                result.sub_id@,
                result.event@,
                opt_event(decoded),
                restricted,
            ).0,
            frames_view(frames@) == old(self)@.stored(
                token,
                result.sub_id@,
                result.event@,
                opt_event(decoded),
                restricted,
            ).1,
    {
        let ghost before = self@;
        let mut frames: Vec<Frame> = Vec::new();
        proof {
            if before.awaits(token, result.sub_id@) && result.event@ == "EOSE"@ {
                stored_events_end_once(
                    before,
                    token,
                    result.sub_id@,
                    opt_event(decoded),
                    restricted,
                );
            }
        }
        let found = self.position(result.sub_id.as_str());
        match found {
            Some(i) => {
                if self.subscriptions[i].token != token || self.subscriptions[i].live {
                    return frames;
                }
                let auth_pubkey = match &self.auth {
                    AuthState::AuthPubkey(k) => Some(k),
                    _ => None,
                };
                let entry = &mut self.subscriptions[i];
                if str_eq(result.event.as_str(), "EOSE") {
                    let sent = entry.on_end(auth_pubkey, restricted);
                    assert(self@.entries =~= before.entries.update(
                        i as int,
                        self.subscriptions@[i as int]@,
                    ));
                    sent
                } else {
                    let frame = entry.on_row(
                        result.event.as_str(),
                        decoded,
                        auth_pubkey,
                        restricted,
                    );
                    assert(self@.entries =~= before.entries.update(
                        i as int,
                        self.subscriptions@[i as int]@,
                    ));
                    match frame {
                        Some(f) => {
                            frames.push(f);
                        },
                        None => {},
                    }
                    frames
                }
            },
            None => frames,
        }
    }
}

/// The identifier that a frame carries, for a frame that carries one.
pub open spec fn frame_ids(frames: Seq<FrameView>) -> Seq<Seq<char>> {
    Seq::new(frames.len(), |k: int| frames[k].event_id->0)
}

/// The identifiers of an optional frame: one or none.
pub open spec fn frame_id(frame: Option<FrameView>) -> Seq<Seq<char>> {
    match frame {
        Some(f) => seq![f.event_id->0],
        None => Seq::empty(),
    }
}

/// Sending an event records it: the frame, if one is sent, is for this
/// subscription and carries an identifier that was not sent before, and
/// the record of what was sent grows by exactly that identifier and stays
/// free of repetitions.
pub proof fn sending_records_the_event(
    entry: EntryView,
    kind: FrameKind,
    id: Seq<char>,
    json: Seq<char>,
    allowed: bool,
)
    ensures
        ({
            let (next, frame) = entry.deliver(kind, id, json, allowed);
            &&& next == (EntryView { delivered: next.delivered, ..entry })
            &&& next.delivered == entry.delivered + frame_id(frame)
            &&& frame matches Some(f) ==> f == event_frame(kind, entry.sub.id, id, json)
                && !entry.delivered.contains(id)
            &&& frame is Some <==> allowed && !entry.delivered.contains(id)
            &&& entry.delivered.no_duplicates() ==> next.delivered.no_duplicates()
        }),
{
    let (next, frame) = entry.deliver(kind, id, json, allowed);
    if frame is Some {
        if entry.delivered.no_duplicates() {
            assert forall|i: int, j: int|
                0 <= i < next.delivered.len() && 0 <= j < next.delivered.len() && i
                    != j implies next.delivered[i] != next.delivered[j] by {}
        }
    }
}

/// Sending what was held back sends live frames of this subscription
/// only, each with an identifier, and records exactly their identifiers.
pub proof fn lemma_flush(entry: EntryView, n: nat, auth_pubkey: Option<Seq<char>>, restricted: bool)
    requires
        entry.delivered.no_duplicates(),
    ensures
        ({
            let (next, frames) = entry.flush(n, auth_pubkey, restricted);
            &&& next == (EntryView { delivered: next.delivered, ..entry })
            &&& next.delivered == entry.delivered + frame_ids(frames)
            &&& next.delivered.no_duplicates()
            &&& forall|k: int|
                0 <= k < frames.len() ==> (#[trigger] frames[k]).kind == FrameKind::Live
                    && frames[k].sub_id == entry.sub.id && frames[k].event_id is Some
        }),
    decreases n,
{
    if 0 < n <= entry.pending.len() {
        lemma_flush(entry, (n - 1) as nat, auth_pubkey, restricted);
    }
}

/// What taking a published event does to each subscription is what
/// [`EntryView::on_published`] says, and nothing else changes.
pub proof fn lemma_published_entries(
    entries: Seq<EntryView>,
    n: nat,
    e: EventView,
    auth_pubkey: Option<Seq<char>>,
    restricted: bool,
)
    requires
        n <= entries.len(),
    ensures
        publish_to(entries, n, e, auth_pubkey, restricted).0.len() == entries.len(),
        forall|i: int|
            0 <= i < n ==> #[trigger] publish_to(entries, n, e, auth_pubkey, restricted).0[i]
                == entries[i].on_published(e, auth_pubkey, restricted).0,
        forall|i: int|
            n <= i < entries.len() ==> #[trigger] publish_to(
                entries,
                n,
                e,
                auth_pubkey,
                restricted,
            ).0[i] == entries[i],
        forall|k: int|
            0 <= k < publish_to(entries, n, e, auth_pubkey, restricted).1.len() ==> exists|i: int|
                0 <= i < n && (#[trigger] entries[i]).on_published(e, auth_pubkey, restricted).1
                    == Some(#[trigger] publish_to(entries, n, e, auth_pubkey, restricted).1[k]),
        forall|i: int|
            0 <= i < n && (#[trigger] entries[i]).on_published(e, auth_pubkey, restricted).1
                is Some ==> publish_to(entries, n, e, auth_pubkey, restricted).1.contains(
                entries[i].on_published(e, auth_pubkey, restricted).1->0,
            ),
    decreases n,
{
    if n > 0 {
        lemma_published_entries(entries, (n - 1) as nat, e, auth_pubkey, restricted);
        let (es, fs) = publish_to(entries, (n - 1) as nat, e, auth_pubkey, restricted);
        let frames = publish_to(entries, n, e, auth_pubkey, restricted).1;
        assert forall|k: int| 0 <= k < frames.len() implies exists|i: int|
            0 <= i < n && (#[trigger] entries[i]).on_published(e, auth_pubkey, restricted).1
                == Some(#[trigger] frames[k]) by {
        }
        assert forall|i: int|
            0 <= i < n && (#[trigger] entries[i]).on_published(e, auth_pubkey, restricted).1
                is Some implies frames.contains(
            entries[i].on_published(e, auth_pubkey, restricted).1->0,
        ) by {
            let f = entries[i].on_published(e, auth_pubkey, restricted).1->0;
            if i < n - 1 {
                let k = choose|k: int| 0 <= k < fs.len() && fs[k] == f;
                assert(frames[k] == f);
            } else {
                assert(frames[frames.len() - 1] == f);
            }
        }
    }
}

/// A subscription whose stored events have ended receives every published
/// event that it matches and that the client may receive: afterwards the
/// event is among those it was sent, and unless it was sent before, the
/// frame that carries it is among the frames to send.
pub proof fn live_subscription_receives(c: ConnView, e: EventView, restricted: bool, i: int)
    requires
        0 <= i < c.entries.len(),
        c.entries[i].live,
        c.entries[i].sub.matches(e),
        may_receive(e, c.auth.pubkey(), restricted),
    ensures
        c.published(e, restricted).0.entries[i].delivered.contains(e.id),
        c.entries[i].delivered.contains(e.id) || c.published(e, restricted).1.contains(
            event_frame(FrameKind::Live, c.entries[i].sub.id, e.id, e.json()),
        ),
{
    lemma_published_entries(c.entries, c.entries.len(), e, c.auth.pubkey(), restricted);
    let entry = c.entries[i];
    let (next, frame) = entry.on_published(e, c.auth.pubkey(), restricted);
    if !entry.delivered.contains(e.id) {
        assert(next.delivered[entry.delivered.len() as int] == e.id);
    }
}

/// A published event is sent only to subscriptions whose stored events
/// have ended: every frame it causes is a live frame for an open
/// subscription that was live before and matches the event. The other
/// subscriptions that match hold the event back.
pub proof fn published_reaches_only_live(c: ConnView, e: EventView, restricted: bool, k: int)
    requires
        0 <= k < c.published(e, restricted).1.len(),
    ensures
        ({
            let f = c.published(e, restricted).1[k];
            &&& f.kind == FrameKind::Live
            &&& f.event_id == Some(e.id)
            &&& exists|i: int|
                0 <= i < c.entries.len() && (#[trigger] c.entries[i]).live && c.entries[i].sub.id
                    == f.sub_id && c.entries[i].sub.matches(e) && !c.entries[i].delivered.contains(
                    e.id,
                )
        }),
{
    lemma_published_entries(c.entries, c.entries.len(), e, c.auth.pubkey(), restricted);
    let f = c.published(e, restricted).1[k];
    let i = choose|i: int|
        0 <= i < c.entries.len() && (#[trigger] c.entries[i]).on_published(
            e,
            c.auth.pubkey(),
            restricted,
        ).1 == Some(f);
}

/// Taking a published event keeps the subscriptions and their names, and
/// no subscription is sent an event a second time: what each was sent
/// grows by at most the event, stays free of repetitions, and a
/// subscription that held the event back before its stored events ended
/// has it at the end of what it holds back.
pub proof fn published_sends_once(c: ConnView, e: EventView, restricted: bool, i: int)
    requires
        c.wf(),
        0 <= i < c.entries.len(),
    ensures
        c.published(e, restricted).0.wf(),
        ({
            let before = c.entries[i];
            let after = c.published(e, restricted).0.entries[i];
            &&& after.sub == before.sub
            &&& after.live == before.live
            &&& after.token == before.token
            &&& after.delivered == before.delivered || (after.delivered == before.delivered.push(
                e.id,
            ) && !before.delivered.contains(e.id) && before.live)
            &&& after.pending == before.pending || (after.pending == before.pending.push(e)
                && !before.live)
        }),
{
    let key = c.auth.pubkey();
    lemma_published_entries(c.entries, c.entries.len(), e, key, restricted);
    let (next, frame) = c.entries[i].deliver(
        FrameKind::Live,
        e.id,
        e.json(),
        may_receive(e, key, restricted),
    );
}

impl ConnView {
    /// Whether the query `token` is the one that reads the stored events
    /// of the open subscription `sub_id`, and they have not ended.
    pub open spec fn awaits(self, token: u64, sub_id: Seq<char>) -> bool {
        find(self.entries, sub_id) matches Some(i) && self.entries[i].token == token
            && !self.entries[i].live
    }
}

/// A result for a subscription that is closed, has another query, or has
/// seen its stored events end changes nothing and sends nothing.
pub proof fn stale_result_is_dropped(
    c: ConnView,
    token: u64,
    sub_id: Seq<char>,
    text: Seq<char>,
    decoded: Option<EventView>,
    restricted: bool,
)
    requires
        !c.awaits(token, sub_id),
    ensures
        c.stored(token, sub_id, text, decoded, restricted) == (c, Seq::<FrameView>::empty()),
{
}

/// A row from the store sends at most one frame, a stored event for the
/// subscription that asked, and only an event that the subscription was
/// not sent before. The subscription stays as it is but for the record of
/// what it was sent, and its stored events have not ended.
pub proof fn stored_row_is_sent_once(
    c: ConnView,
    token: u64,
    sub_id: Seq<char>,
    text: Seq<char>,
    decoded: Option<EventView>,
    restricted: bool,
)
    requires
        c.wf(),
        c.awaits(token, sub_id),
        text != "EOSE"@,
    ensures
        c.stored(token, sub_id, text, decoded, restricted).0.wf(),
        c.stored(token, sub_id, text, decoded, restricted).0.awaits(token, sub_id),
        ({
            let (after, frames) = c.stored(token, sub_id, text, decoded, restricted);
            let i = find(c.entries, sub_id)->0;
            let entry = c.entries[i];
            let next = after.entries[i];
            &&& after.entries == c.entries.update(i, next)
            &&& next == (EntryView { delivered: next.delivered, ..entry })
            &&& frames.len() <= 1
            &&& frames.len() == 1 ==> frames[0].kind == FrameKind::Stored && frames[0].sub_id
                == sub_id && frames[0].text == event_frame_text(sub_id, text)
            &&& match decoded {
                Some(e) => next.delivered == entry.delivered + frame_ids(frames) && (frames.len()
                    == 1 ==> frames[0].event_id == Some(e.id) && !entry.delivered.contains(e.id)),
                None => next.delivered == entry.delivered && (frames.len() == 1
                    ==> frames[0].event_id is None),
            }
        }),
{
    lemma_find(c.entries, sub_id);
    let i = find(c.entries, sub_id)->0;
    let entry = c.entries[i];
    let key = c.auth.pubkey();
    let (next, frame) = entry.on_row(text, decoded, key, restricted);
    lemma_find_updated(c.entries, i, next, sub_id);
}

/// Replacing an entry by one of the same name does not change where names
/// are found.
pub proof fn lemma_find_updated(entries: Seq<EntryView>, i: int, entry: EntryView, id: Seq<char>)
    requires
        0 <= i < entries.len(),
        entry.sub.id == entries[i].sub.id,
    ensures
        find(entries.update(i, entry), id) == find(entries, id),
    decreases entries.len(),
{
    let updated = entries.update(i, entry);
    if i == entries.len() - 1 {
        assert(updated.drop_last() =~= entries.drop_last());
    } else {
        assert(updated.drop_last() =~= entries.drop_last().update(i, entry));
        lemma_find_updated(entries.drop_last(), i, entry, id);
    }
}

/// When the store says that the stored events of a subscription have
/// ended, the end marker is sent, once: it comes first, the events that
/// were held back follow it as live frames, each with an identifier that
/// the subscription was not sent before, and the subscription is live
/// from then on, so that no result of that query is taken again.
pub proof fn stored_events_end_once(
    c: ConnView,
    token: u64,
    sub_id: Seq<char>,
    decoded: Option<EventView>,
    restricted: bool,
)
    requires
        c.wf(),
        c.awaits(token, sub_id),
    ensures
        c.stored(token, sub_id, "EOSE"@, decoded, restricted).0.wf(),
        !c.stored(token, sub_id, "EOSE"@, decoded, restricted).0.awaits(token, sub_id),
        ({
            let (after, frames) = c.stored(token, sub_id, "EOSE"@, decoded, restricted);
            let i = find(c.entries, sub_id)->0;
            let entry = c.entries[i];
            let next = after.entries[i];
            &&& after.entries == c.entries.update(i, next)
            &&& next == (EntryView {
                live: true,
                pending: Seq::empty(),
                delivered: next.delivered,
                ..entry
            })
            &&& frames.len() >= 1
            &&& frames[0] == eose_frame(sub_id)
            &&& next.delivered == entry.delivered + frame_ids(frames.skip(1))
            &&& forall|k: int|
                1 <= k < frames.len() ==> (#[trigger] frames[k]).kind == FrameKind::Live
                    && frames[k].sub_id == sub_id && frames[k].event_id is Some
        }),
{
    let (after, frames) = c.stored(token, sub_id, "EOSE"@, decoded, restricted);
    lemma_find(c.entries, sub_id);
    let i = find(c.entries, sub_id)->0;
    let entry = c.entries[i];
    let key = c.auth.pubkey();
    lemma_flush(entry, entry.pending.len(), key, restricted);
    let next = after.entries[i];
    lemma_find_updated(c.entries, i, next, sub_id);
    assert forall|k: int| 1 <= k < frames.len() implies (#[trigger] frames[k]).kind
        == FrameKind::Live && frames[k].sub_id == sub_id && frames[k].event_id is Some by {}
}

/// Closing a subscription cancels the query that reads its stored events,
/// if they have not ended, and what that query still returns is dropped:
/// the name is no longer found. The other subscriptions stay as they are.
pub proof fn closing_cancels_query(c: ConnView, id: Seq<char>)
    requires
        c.wf(),
    ensures
        c.unsubscribed(id).0.wf(),
        find(c.unsubscribed(id).0.entries, id) is None,
        forall|token: u64| c.awaits(token, id) ==> c.unsubscribed(id).1 == Some(token),
        forall|token: u64| !c.unsubscribed(id).0.awaits(token, id),
{
    lemma_find(c.entries, id);
    match find(c.entries, id) {
        Some(i) => {
            let rest = c.entries.remove(i);
            assert forall|j: int| 0 <= j < rest.len() implies (#[trigger] rest[j]).sub.id != id by {}
            lemma_find(rest, id);
            assert forall|k: int| 0 <= k < rest.len() implies (#[trigger] rest[k]).delivered.no_duplicates() by {}
        },
        None => {},
    }
}

/// Opening a subscription under a name in use replaces the old one: its
/// query is cancelled if its stored events have not ended, and the new
/// subscription starts with nothing sent, waiting for the query with the
/// new token or live at once if no stored event can match.
pub proof fn replacing_cancels_query(c: ConnView, sub: SubscriptionView, needs_history: bool)
    requires
        c.wf(),
        c.subscribed(sub, needs_history) is Ok,
    ensures
        ({
            let r = c.subscribed(sub, needs_history)->Ok_0;
            &&& r.conn.wf()
            &&& r.token == c.next_token
            &&& find(r.conn.entries, sub.id) matches Some(i) && r.conn.entries[i]
                == EntryView::fresh(sub, r.token, needs_history)
            &&& needs_history ==> r.conn.awaits(r.token, sub.id)
            &&& forall|token: u64| c.awaits(token, sub.id) ==> r.cancelled == Some(token)
        }),
{
    let entry = EntryView::fresh(sub, c.next_token, needs_history);
    lemma_find(c.entries, sub.id);
    match find(c.entries, sub.id) {
        Some(i) => {
            lemma_find_updated(c.entries, i, entry, sub.id);
        },
        None => {
            let pushed = c.entries.push(entry);
            assert(pushed.drop_last() =~= c.entries);
            assert forall|a: int, b: int| 0 <= a < b < pushed.len() implies (
            #[trigger] pushed[a]).sub.id != (#[trigger] pushed[b]).sub.id by {}
        },
    }
}

/// Every query that still runs is among those that are cancelled when the
/// connection ends.
pub proof fn lemma_running_queries(entries: Seq<EntryView>, n: nat, i: int)
    requires
        n <= entries.len(),
        0 <= i < n,
        !entries[i].live,
    ensures
        outstanding(entries, n).contains(entries[i].token),
    decreases n,
{
    let all = outstanding(entries, n);
    if i == n - 1 {
        assert(all[all.len() - 1] == entries[i].token);
    } else {
        lemma_running_queries(entries, (n - 1) as nat, i);
        let rest = outstanding(entries, (n - 1) as nat);
        let k = choose|k: int| 0 <= k < rest.len() && rest[k] == entries[i].token;
        assert(all[k] == entries[i].token);
    }
}

} // verus!
