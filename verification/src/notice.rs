//! Messages from the relay to one client that are not events.
use vstd::prelude::*;
use vstd::string::*;

verus! {

/// How the relay dealt with a submitted event.
#[derive(Debug, Clone, Copy, PartialEq, Eq, Structural)]
pub enum EventResultStatus {
    Saved,
    Duplicate,
    Invalid,
    Blocked,
    RateLimited,
    Error,
    Restricted,
}

impl EventResultStatus {
    /// Whether the event is in the store after this outcome.
    pub open spec fn accepted(self) -> bool {
        self == EventResultStatus::Saved || self == EventResultStatus::Duplicate
    }

    /// The word that starts the message of this outcome.
    pub open spec fn prefix_text(self) -> Seq<char> {
        match self {
            EventResultStatus::Saved => "saved"@,
            EventResultStatus::Duplicate => "duplicate"@,
            EventResultStatus::Invalid => "invalid"@,
            EventResultStatus::Blocked => "blocked"@,
            EventResultStatus::RateLimited => "rate-limited"@,
            EventResultStatus::Error => "error"@,
            EventResultStatus::Restricted => "restricted"@,
        }
    }

    /// Whether the event is in the store after this outcome.
    pub fn to_bool(&self) -> (r: bool)
        ensures
            r == self.accepted(),
    {
        match self {
            EventResultStatus::Saved => true,
            EventResultStatus::Duplicate => true,
            _ => false,
        }
    }

    /// The word that starts the message of this outcome.
    pub fn prefix(&self) -> (r: &'static str)
        ensures
            r@ == self.prefix_text(),
    {
        match self {
            EventResultStatus::Saved => "saved",
            EventResultStatus::Duplicate => "duplicate",
            EventResultStatus::Invalid => "invalid",
            EventResultStatus::Blocked => "blocked",
            EventResultStatus::RateLimited => "rate-limited",
            EventResultStatus::Error => "error",
            EventResultStatus::Restricted => "restricted",
        }
    }
}

/// The answer to one submitted event.
#[derive(Debug, Clone, PartialEq)]
pub struct EventResult {
    /// Identifier of the event.
    pub id: String,
    /// Message for the client.
    pub msg: String,
    /// What became of the event.
    pub status: EventResultStatus,
}

/// A message for one client.
#[derive(Debug, Clone, PartialEq)]
pub enum Notice {
    /// Free text.
    Message(String),
    /// The answer to a submitted event.
    EventResult(EventResult),
    /// A challenge the client is asked to sign.
    AuthChallenge(String),
}

/// Mathematical model of a [`Notice`].
#[verifier::ext_equal]
pub enum NoticeView {
    Message(Seq<char>),
    EventResult { id: Seq<char>, msg: Seq<char>, status: EventResultStatus },
    AuthChallenge(Seq<char>),
}

impl View for Notice {
    type V = NoticeView;

    open spec fn view(&self) -> NoticeView {
        match self {
            Notice::Message(m) => NoticeView::Message(m@),
            Notice::EventResult(r) => NoticeView::EventResult {
                id: r.id@,
                msg: r.msg@,
                status: r.status,
            },
            Notice::AuthChallenge(c) => NoticeView::AuthChallenge(c@),
        }
    }
}

/// The answer with the given status whose message is the status word, a
/// colon, a space and `msg`.
pub open spec fn prefixed_view(id: Seq<char>, msg: Seq<char>, status: EventResultStatus)
    -> NoticeView {
    NoticeView::EventResult { id, msg: status.prefix_text() + ": "@ + msg, status }
}

impl Notice {
    /// A free-text notice.
    pub fn message(msg: String) -> (n: Notice)
        ensures
            n@ == NoticeView::Message(msg@),
    {
        Notice::Message(msg)
    }

    fn prefixed(id: String, msg: &str, status: EventResultStatus) -> (n: Notice)
        ensures
            n@ == prefixed_view(id@, msg@, status),
    {
        let mut text = String::new();
        text.append(status.prefix());
        text.append(": ");
        text.append(msg);
        Notice::EventResult(EventResult { id, msg: text, status })
    }

    /// The event is refused as invalid.
    pub fn invalid(id: String, msg: &str) -> (n: Notice)
        ensures
            n@ == prefixed_view(id@, msg@, EventResultStatus::Invalid),
    {
        Notice::prefixed(id, msg, EventResultStatus::Invalid)
    }

    /// The event is refused by policy.
    pub fn blocked(id: String, msg: &str) -> (n: Notice)
        ensures
            n@ == prefixed_view(id@, msg@, EventResultStatus::Blocked),
    {
        Notice::prefixed(id, msg, EventResultStatus::Blocked)
    }

    /// The event could not be stored.
    pub fn error(id: String, msg: &str) -> (n: Notice)
        ensures
            n@ == prefixed_view(id@, msg@, EventResultStatus::Error),
    {
        Notice::prefixed(id, msg, EventResultStatus::Error)
    }

    /// The client may not do this before it has authenticated.
    pub fn restricted(id: String, msg: &str) -> (n: Notice)
        ensures
            n@ == prefixed_view(id@, msg@, EventResultStatus::Restricted),
    {
        Notice::prefixed(id, msg, EventResultStatus::Restricted)
    }

    /// The event was already in the store.
    pub fn duplicate(id: String) -> (n: Notice)
        ensures
            n@ == prefixed_view(id@, Seq::<char>::empty(), EventResultStatus::Duplicate),
    {
        proof {
            reveal_strlit("");
        }
        Notice::prefixed(id, "", EventResultStatus::Duplicate)
    }

    /// The event is now in the store.
    pub fn saved(id: String) -> (n: Notice)
        ensures
            n@ == (NoticeView::EventResult {
                id: id@,
                msg: Seq::<char>::empty(),
                status: EventResultStatus::Saved,
            }),
    {
        Notice::EventResult(EventResult { id, msg: String::new(), status: EventResultStatus::Saved })
    }
}

} // verus!
