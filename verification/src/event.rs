//! The event entity and the predicates the relay evaluates on it.
use vstd::prelude::*;
use vstd::string::*;
use crate::crypto::{
    hex_text, pubkey_parses, schnorr_accepts, schnorr_verify, sha256, sha256_digest,
    signature_parses, signature_wellformed, to_hex, xonly_key_valid,
};
use crate::error::Error;
use crate::json::{json_array, json_string, json_strings, make_array, quote, quote_all};
use crate::text::{chars_of, clone_strings, decimal, push_char, push_decimal, str_eq, strs};

verus! {

/// A signed event as clients submit it.
#[derive(Debug, PartialEq)]
pub struct Event {
    /// Hex form of the content hash that identifies the event.
    pub id: String,
    /// Hex form of the author's public key.
    pub pubkey: String,
    /// Creation time, in seconds since the epoch.
    pub created_at: u64,
    /// Kind of the event.
    pub kind: u64,
    /// Tags; the first element of a tag names it.
    pub tags: Vec<Vec<String>>,
    /// Content text.
    pub content: String,
    /// Hex form of the signature over the content hash.
    pub sig: String,
}

/// Mathematical model of an [`Event`].
#[verifier::ext_equal]
pub struct EventView {
    pub id: Seq<char>,
    pub pubkey: Seq<char>,
    pub created_at: u64,
    pub kind: u64,
    pub tags: Seq<Seq<Seq<char>>>,
    pub content: Seq<char>,
    pub sig: Seq<char>,
}

/// The views of a sequence of tags, in order.
pub open spec fn tags_view(tags: Seq<Vec<String>>) -> Seq<Seq<Seq<char>>> {
    Seq::new(tags.len(), |i: int| strs(tags[i]@))
}

impl View for Event {
    type V = EventView;

    open spec fn view(&self) -> EventView {
        EventView {
            id: self.id@,
            pubkey: self.pubkey@,
            created_at: self.created_at,
            kind: self.kind,
            tags: tags_view(self.tags@),
            content: self.content@,
            sig: self.sig@,
        }
    }
}

/// The second element of every tag of at least two elements that is named
/// `name`, in tag order.
pub open spec fn tag_values(tags: Seq<Seq<Seq<char>>>, name: Seq<char>) -> Seq<Seq<char>>
    decreases tags.len(),
{
    if tags.len() == 0 {
        Seq::empty()
    } else {
        let rest = tag_values(tags.drop_last(), name);
        let t = tags.last();
        if t.len() >= 2 && t[0] == name {
            rest.push(t[1])
        } else {
            rest
        }
    }
}

/// The value of a decimal digit character.
pub open spec fn digit_value(c: char) -> nat
    recommends
        '0' <= c <= '9',
{
    (c as nat - '0' as nat) as nat
}

/// Whether every character of `s` is a decimal digit.
pub open spec fn all_digits(s: Seq<char>) -> bool {
    forall|i: int| 0 <= i < s.len() ==> '0' <= #[trigger] s[i] <= '9'
}

/// The number that the digits of `s` write in base ten; zero for no digits.
pub open spec fn digits_value(s: Seq<char>) -> nat
    decreases s.len(),
{
    if s.len() == 0 {
        0
    } else {
        digits_value(s.drop_last()) * 10 + digit_value(s.last())
    }
}

/// What follows the optional leading `+` of `s`.
pub open spec fn unsigned_part(s: Seq<char>) -> Seq<char> {
    if s.len() > 0 && s[0] == '+' {
        s.subrange(1, s.len() as int)
    } else {
        s
    }
}

/// The unsigned 64-bit number that `s` writes: one or more decimal digits,
/// optionally after a single `+`, whose value fits 64 bits.
pub open spec fn parse_u64_spec(s: Seq<char>) -> Option<u64> {
    let digits = unsigned_part(s);
    if digits.len() > 0 && all_digits(digits) && digits_value(digits) <= u64::MAX {
        Some(digits_value(digits) as u64)
    } else {
        None
    }
}

/// The expiration time an event declares: the number written by the second
/// element of its first tag named `expiration`. A missing second element
/// counts as empty text.
pub open spec fn expiration_spec(tags: Seq<Seq<Seq<char>>>) -> Option<u64>
    decreases tags.len(),
{
    if tags.len() == 0 {
        None
    } else {
        let t = tags.first();
        if t.len() >= 1 && t[0] == "expiration"@ {
            if t.len() >= 2 {
                parse_u64_spec(t[1])
            } else {
                None
            }
        } else {
            expiration_spec(tags.drop_first())
        }
    }
}

impl EventView {
    /// Values of the tags named `e`: the events this one refers to.
    pub open spec fn event_refs(self) -> Seq<Seq<char>> {
        tag_values(self.tags, "e"@)
    }

    /// Values of the tags named `p`: the public keys this one refers to.
    pub open spec fn pubkey_refs(self) -> Seq<Seq<char>> {
        tag_values(self.tags, "p"@)
    }

    /// Whether the event declares an expiration time that is not after `now`.
    pub open spec fn is_expired(self, now: u64) -> bool {
        match expiration_spec(self.tags) {
            Some(t) => t <= now,
            None => false,
        }
    }

    /// Whether the creation time is no later than `max_skew` seconds after
    /// `now`; true when no bound is set.
    pub open spec fn is_within_future_bound(self, now: u64, max_skew: Option<u64>) -> bool {
        match max_skew {
            Some(skew) => self.created_at <= now + skew,
            None => true,
        }
    }

    /// The first eight characters of the identifier, or all of it if shorter.
    pub open spec fn id_prefix(self) -> Seq<char> {
        if self.id.len() <= 8 {
            self.id
        } else {
            self.id.subrange(0, 8)
        }
    }
}

/// Parses the unsigned 64-bit number that `s` writes.
pub fn parse_u64(s: &str) -> (r: Option<u64>)
    ensures
        r == parse_u64_spec(s@),
{
    let chars = chars_of(s);
    let start: usize = if chars.len() > 0 && chars[0] == '+' {
        1
    } else {
        0
    };
    let ghost digits = unsigned_part(s@);
    if start == chars.len() {
        return None;
    }
    let mut value: u64 = 0;
    let mut i: usize = start;
    while i < chars.len()
        invariant
            start <= i <= chars.len(),
            chars@ == s@,
            digits == unsigned_part(s@),
            digits == s@.subrange(start as int, s@.len() as int),
            all_digits(digits.take(i - start)),
            value == digits_value(digits.take(i - start)),
        decreases chars.len() - i,
    {
        let c = chars[i];
        let ghost before = digits.take(i - start);
        let ghost after = digits.take(i - start + 1);
        assert(after.drop_last() =~= before);
        assert(after.last() == c);
        if !('0' <= c && c <= '9') {
            return None;
        }
        let d: u64 = (c as u32 - '0' as u32) as u64;
        proof {
            lemma_digits_value_take(digits, i - start + 1);
        }
        if value > (u64::MAX - d) / 10 {
            return None;
        }
        value = value * 10 + d;
        i += 1;
    }
    assert(digits.take(i - start) =~= digits);
    Some(value)
}

/// The value of a prefix never exceeds the value of the whole.
pub proof fn lemma_digits_value_take(s: Seq<char>, n: int)
    requires
        0 <= n <= s.len(),
    ensures
        digits_value(s.take(n)) <= digits_value(s),
    decreases s.len() - n,
{
    if n < s.len() {
        lemma_digits_value_take(s, n + 1);
        assert(s.take(n + 1).drop_last() =~= s.take(n));
    } else {
        assert(s.take(n) =~= s);
    }
}

impl Event {
    /// The second element of every tag of at least two elements named `name`.
    pub fn tag_values_by_name(&self, name: &str) -> (out: Vec<String>)
        ensures
            strs(out@) == tag_values(self@.tags, name@),
    {
        let mut out: Vec<String> = Vec::new();
        let mut i: usize = 0;
        while i < self.tags.len()
            invariant
                i <= self.tags.len(),
                strs(out@) == tag_values(self@.tags.take(i as int), name@),
            decreases self.tags.len() - i,
        {
            let tag = &self.tags[i];
            let ghost next = self@.tags.take(i + 1);
            assert(next.drop_last() =~= self@.tags.take(i as int));
            if tag.len() >= 2 && str_eq(tag[0].as_str(), name) {
                out.push(tag[1].clone());
            }
            i += 1;
        }
        assert(self@.tags.take(i as int) =~= self@.tags);
        out
    }

    /// The events this one refers to.
    pub fn get_event_tags(&self) -> (out: Vec<String>)
        ensures
            strs(out@) == self@.event_refs(),
    {
        self.tag_values_by_name("e")
    }

    /// The public keys this one refers to.
    pub fn get_pubkey_tags(&self) -> (out: Vec<String>)
        ensures
            strs(out@) == self@.pubkey_refs(),
    {
        self.tag_values_by_name("p")
    }

    /// The expiration time the event declares, if it declares one.
    pub fn expiration(&self) -> (r: Option<u64>)
        ensures
            r == expiration_spec(self@.tags),
    {
        let mut i: usize = 0;
        assert(self@.tags.skip(0) =~= self@.tags);
        while i < self.tags.len()
            invariant
                i <= self.tags.len(),
                expiration_spec(self@.tags) == expiration_spec(self@.tags.skip(i as int)),
            decreases self.tags.len() - i,
        {
            let tag = &self.tags[i];
            let ghost rest = self@.tags.skip(i as int);
            assert(rest.drop_first() =~= self@.tags.skip(i + 1));
            if tag.len() >= 1 && str_eq(tag[0].as_str(), "expiration") {
                if tag.len() >= 2 {
                    return parse_u64(tag[1].as_str());
                } else {
                    return None;
                }
            }
            i += 1;
        }
        None
    }

    /// Whether the event has expired at time `now`.
    pub fn is_expired(&self, now: u64) -> (r: bool)
        ensures
            r == self@.is_expired(now),
    {
        match self.expiration() {
            Some(t) => t <= now,
            None => false,
        }
    }

    /// Whether the creation time lies at most `reject_future_seconds` after
    /// `now`; true when no bound is configured.
    pub fn is_valid_timestamp(&self, now: u64, reject_future_seconds: Option<u64>) -> (r: bool)
        ensures
            r == self@.is_within_future_bound(now, reject_future_seconds),
    {
        match reject_future_seconds {
            Some(skew) => {
                match now.checked_add(skew) {
                    Some(limit) => self.created_at <= limit,
                    None => true,
                }
            },
            None => true,
        }
    }

    /// The first eight characters of the identifier.
    pub fn get_event_id_prefix(&self) -> (r: String)
        ensures
            r@ == self@.id_prefix(),
    {
        let chars = chars_of(self.id.as_str());
        let mut r = String::new();
        let mut i: usize = 0;
        while i < chars.len() && i < 8
            invariant
                i <= chars.len(),
                i <= 8,
                chars@ == self.id@,
                r@ == self.id@.take(i as int),
            decreases chars.len() - i,
        {
            push_char(&mut r, chars[i]);
            i += 1;
        }
        r
    }
}

/// The JSON text of the tags: an array of arrays of strings.
pub open spec fn tags_json(tags: Seq<Seq<Seq<char>>>) -> Seq<char> {
    json_array(Seq::new(tags.len(), |i: int| json_array(json_strings(tags[i]))))
}

impl EventView {
    /// The text whose hash identifies the event: the JSON array of zero,
    /// public key, creation time, kind, tags and content, without spaces.
    pub open spec fn canonical(self) -> Seq<char> {
        "[0,"@ + json_string(self.pubkey) + ","@ + decimal(self.created_at as nat) + ","@
            + decimal(self.kind as nat) + ","@ + tags_json(self.tags) + ","@ + json_string(
            self.content,
        ) + "]"@
    }

    /// The JSON object that carries the event on the wire and in the store.
    pub open spec fn json(self) -> Seq<char> {
        "{\"id\":"@ + json_string(self.id) + ",\"pubkey\":"@ + json_string(self.pubkey)
            + ",\"created_at\":"@ + decimal(self.created_at as nat) + ",\"kind\":"@ + decimal(
            self.kind as nat,
        ) + ",\"tags\":"@ + tags_json(self.tags) + ",\"content\":"@ + json_string(self.content)
            + ",\"sig\":"@ + json_string(self.sig) + "}"@
    }

    /// The hash of the canonical text, as bytes.
    pub open spec fn digest(self) -> Seq<u8> {
        sha256(vstd::utf8::encode_utf8(self.canonical()))
    }

    /// The outcome of validating the event: the identifier must be the
    /// lower-case hex text of the digest, and the signature must be a
    /// Schnorr signature of the digest under the public key.
    pub open spec fn validation(self) -> Result<(), Error> {
        if self.id != hex_text(self.digest()) {
            Err(Error::EventInvalidId)
        } else if !signature_wellformed(self.sig) {
            Err(Error::EventInvalidSignature)
        } else if !xonly_key_valid(self.pubkey) {
            Err(Error::EventMalformedPubkey)
        } else if !schnorr_accepts(self.sig, self.digest(), self.pubkey) {
            Err(Error::EventInvalidSignature)
        } else {
            Ok(())
        }
    }
}

impl Event {
    fn tags_to_json(&self) -> (r: String)
        ensures
            r@ == tags_json(self@.tags),
    {
        let mut items: Vec<String> = Vec::new();
        let mut i: usize = 0;
        while i < self.tags.len()
            invariant
                i <= self.tags.len(),
                items@.len() == i,
                forall|j: int|
                    0 <= j < i ==> (#[trigger] items@[j])@ == json_array(
                        json_strings(self@.tags[j]),
                    ),
            decreases self.tags.len() - i,
        {
            let quoted = quote_all(&self.tags[i]);
            items.push(make_array(&quoted));
            i += 1;
        }
        assert(strs(items@) =~= Seq::new(
            self@.tags.len(),
            |i: int| json_array(json_strings(self@.tags[i])),
        ));
        make_array(&items)
    }

    /// The text whose hash identifies the event.
    pub fn to_canonical(&self) -> (r: String)
        ensures
            r@ == self@.canonical(),
    {
        let mut r = String::new();
        r.append("[0,");
        r.append(quote(self.pubkey.as_str()).as_str());
        r.append(",");
        push_decimal(&mut r, self.created_at);
        r.append(",");
        push_decimal(&mut r, self.kind);
        r.append(",");
        r.append(self.tags_to_json().as_str());
        r.append(",");
        r.append(quote(self.content.as_str()).as_str());
        r.append("]");
        r
    }

    /// The JSON object that carries the event on the wire and in the store.
    pub fn to_json(&self) -> (r: String)
        ensures
            r@ == self@.json(),
    {
        let mut r = String::new();
        r.append("{\"id\":");
        r.append(quote(self.id.as_str()).as_str());
        r.append(",\"pubkey\":");
        r.append(quote(self.pubkey.as_str()).as_str());
        r.append(",\"created_at\":");
        push_decimal(&mut r, self.created_at);
        r.append(",\"kind\":");
        push_decimal(&mut r, self.kind);
        r.append(",\"tags\":");
        r.append(self.tags_to_json().as_str());
        r.append(",\"content\":");
        r.append(quote(self.content.as_str()).as_str());
        r.append(",\"sig\":");
        r.append(quote(self.sig.as_str()).as_str());
        r.append("}");
        r
    }

    /// Whether the identifier is the lower-case hex text of `digest`.
    pub fn id_matches(&self, digest: &Vec<u8>) -> (r: bool)
        ensures
            r == (self@.id == hex_text(digest@)),
    {
        let expected = to_hex(digest);
        self.id == expected
    }

    /// Validates the event: recomputes the identifier from the canonical
    /// text and checks the signature over it.
    pub fn validate(&self) -> (r: Result<(), Error>)
        ensures
            r == self@.validation(),
    {
        let canonical = self.to_canonical();
        let digest = sha256_digest(canonical.as_str().as_bytes());
        if !self.id_matches(&digest) {
            return Err(Error::EventInvalidId);
        }
        if !signature_parses(self.sig.as_str()) {
            return Err(Error::EventInvalidSignature);
        }
        if !pubkey_parses(self.pubkey.as_str()) {
            return Err(Error::EventMalformedPubkey);
        }
        if schnorr_verify(self.sig.as_str(), digest.as_slice(), self.pubkey.as_str()) {
            Ok(())
        } else {
            Err(Error::EventInvalidSignature)
        }
    }
}

impl Clone for Event {
    fn clone(&self) -> (r: Self)
        ensures
            r@ == self@,
    {
        let mut tags: Vec<Vec<String>> = Vec::new();
        let mut i: usize = 0;
        while i < self.tags.len()
            invariant
                i <= self.tags.len(),
                tags@.len() == i,
                forall|j: int| 0 <= j < i ==> strs((#[trigger] tags@[j])@) == strs(self.tags@[j]@),
            decreases self.tags.len() - i,
        {
            tags.push(clone_strings(&self.tags[i]));
            i += 1;
        }
        Event {
            id: self.id.clone(),
            pubkey: self.pubkey.clone(),
            created_at: self.created_at,
            kind: self.kind,
            tags,
            content: self.content.clone(),
            sig: self.sig.clone(),
        }
    }
}

/// An event command as it arrives: the command word and the event.
#[derive(Debug, Clone, PartialEq)]
pub struct EventCmd {
    /// The command word: `EVENT` to submit, `AUTH` to authenticate.
    pub cmd: String,
    /// The event.
    pub event: Event,
}

/// An event that arrived, by what it is for.
#[derive(Debug, Clone, PartialEq)]
pub enum EventWrapper {
    /// A validated event to store and publish.
    WrappedEvent(Event),
    /// An answer to an authentication challenge; it is validated when it
    /// is used.
    WrappedAuth(Event),
}

/// What an event command is taken for.
#[verifier::ext_equal]
pub enum WrappedView {
    Event(EventView),
    Auth(EventView),
}

impl View for EventWrapper {
    type V = WrappedView;

    open spec fn view(&self) -> WrappedView {
        match self {
            EventWrapper::WrappedEvent(e) => WrappedView::Event(e@),
            EventWrapper::WrappedAuth(e) => WrappedView::Auth(e@),
        }
    }
}

/// What the command `cmd` with the event `e` is taken for: an `EVENT`
/// command carries an event that must be valid, an `AUTH` command carries
/// an answer to a challenge, and no other command is known.
pub open spec fn wrapped(cmd: Seq<char>, e: EventView) -> Result<WrappedView, Error> {
    if cmd == "EVENT"@ {
        match e.validation() {
            Ok(_) => Ok(WrappedView::Event(e)),
            Err(err) => Err(err),
        }
    } else if cmd == "AUTH"@ {
        Ok(WrappedView::Auth(e))
    } else {
        Err(Error::CommandUnknownError)
    }
}

impl EventCmd {
    /// The identifier of the event that the command carries.
    pub fn event_id(&self) -> (r: &str)
        ensures
            r@ == self.event@.id,
    {
        self.event.id.as_str()
    }

    /// Says what the command is for, and validates a submitted event.
    pub fn into_wrapper(self) -> (r: Result<EventWrapper, Error>)
        ensures
            match r {
                Ok(w) => wrapped(self.cmd@, self.event@) == Ok::<WrappedView, Error>(w@),
                Err(e) => wrapped(self.cmd@, self.event@) == Err::<WrappedView, Error>(e),
            },
    {
        if str_eq(self.cmd.as_str(), "EVENT") {
            match self.event.validate() {
                Ok(_) => Ok(EventWrapper::WrappedEvent(self.event)),
                Err(e) => Err(e),
            }
        } else if str_eq(self.cmd.as_str(), "AUTH") {
            Ok(EventWrapper::WrappedAuth(self.event))
        } else {
            Err(Error::CommandUnknownError)
        }
    }
}

/// The text of an event is never the end marker.
pub proof fn lemma_json_is_no_marker(e: EventView)
    ensures
        e.json() != "EOSE"@,
{
    reveal_strlit("{\"id\":");
    reveal_strlit("EOSE");
    assert(e.json()[0] == '{');
}

} // verus!
