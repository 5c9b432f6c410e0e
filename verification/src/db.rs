//! Event persistence and querying: the text of the queries a SQL store
//! runs, a store held in memory, and the writer and reader that work on it.
use vstd::prelude::*;
use vstd::string::*;
use crate::config::Authorization;
use crate::event::{lemma_json_is_no_marker, Event, EventView};
use crate::notice::{prefixed_view, EventResultStatus, Notice, NoticeView};
use crate::subscription::opt_strs;
use crate::subscription::{FilterView, ReqFilter, Subscription, SubscriptionView};
use crate::text::{
    all_hex, blob, chars_of, contains_string, decimal, hex_decode, is_hex_digit, join,
    join_strings, opt_bytes, opt_string, push_decimal, str_eq, strs,
};

verus! {

/// Event resulting from a specific subscription request.
#[derive(Debug, Clone, PartialEq)]
pub struct QueryResult {
    /// Subscription identifier.
    pub sub_id: String,
    /// Serialized event.
    pub event: String,
}

/// Checks if a string contains only hex characters.
pub fn is_hex(s: &str) -> (r: bool)
    ensures
        r == all_hex(s@),
{
    let chars = chars_of(s);
    let mut i: usize = 0;
    while i < chars.len()
        invariant
            i <= chars.len(),
            chars@ == s@,
            forall|j: int| 0 <= j < i ==> is_hex_digit(#[trigger] s@[j]),
        decreases chars.len() - i,
    {
        let c = chars[i];
        if !(('0' <= c && c <= '9') || ('a' <= c && c <= 'f') || ('A' <= c && c <= 'F')) {
            return false;
        }
        i += 1;
    }
    true
}

/// The part of every query that precedes its conditions.
pub open spec fn select_prefix() -> Seq<char> {
    "SELECT DISTINCT(e.content) FROM event e LEFT JOIN event_ref er ON e.id=er.event_id LEFT JOIN pubkey_ref pr ON e.id=pr.event_id "@
}

/// The blob literal `x'..'` of each item that writes bytes in hexadecimal,
/// in order; items that are not an even number of hexadecimal digits are
/// left out.
pub open spec fn hex_literals(items: Seq<Seq<char>>) -> Seq<Seq<char>>
    decreases items.len(),
{
    if items.len() == 0 {
        Seq::empty()
    } else {
        let rest = hex_literals(items.drop_last());
        if blob(items.last()) is Some {
            rest.push("x'"@ + items.last() + "'"@)
        } else {
            rest
        }
    }
}

/// The decimal numerals of `items`, in order.
pub open spec fn numerals(items: Seq<u64>) -> Seq<Seq<char>> {
    Seq::new(items.len(), |i: int| decimal(items[i] as nat))
}

/// The condition that `column` is one of `values`.
pub open spec fn in_clause(column: Seq<char>, values: Seq<Seq<char>>) -> Seq<char> {
    column + " IN ("@ + join(values, ", "@) + ")"@
}

/// `components` with the membership condition for an optional list of
/// hexadecimal values added.
pub open spec fn with_hex_set(
    components: Seq<Seq<char>>,
    column: Seq<char>,
    values: Option<Seq<Seq<char>>>,
) -> Seq<Seq<char>> {
    match values {
        Some(v) => components.push(in_clause(column, hex_literals(v))),
        None => components,
    }
}

/// `components` with the comparison of the creation time to an optional
/// bound added.
pub open spec fn with_bound(
    components: Seq<Seq<char>>,
    operator: Seq<char>,
    bound: Option<u64>,
) -> Seq<Seq<char>> {
    match bound {
        Some(t) => components.push("created_at "@ + operator + " "@ + decimal(t as nat)),
        None => components,
    }
}

/// The conditions one filter sets, in the order authors, kinds,
/// identifiers, referenced events, referenced public keys, lower bound,
/// upper bound.
pub open spec fn filter_components(f: FilterView) -> Seq<Seq<char>> {
    let c0 = with_hex_set(Seq::empty(), "author"@, f.authors);
    let c1 = match f.kinds {
        Some(k) => c0.push(in_clause("kind"@, numerals(k))),
        None => c0,
    };
    let c2 = with_hex_set(c1, "event_hash"@, f.ids);
    let c3 = with_hex_set(c2, "referenced_event"@, f.events);
    let c4 = with_hex_set(c3, "referenced_pubkey"@, f.pubkeys);
    let c5 = with_bound(c4, ">"@, f.since);
    with_bound(c5, "<"@, f.until)
}

/// The clause for one filter: its conditions joined by `AND`, or a clause
/// that holds of every row when it sets none.
pub open spec fn filter_clause(f: FilterView) -> Seq<char> {
    let components = filter_components(f);
    if components.len() > 0 {
        "( "@ + join(components, " AND "@) + " )"@
    } else {
        " 1=1 "@
    }
}

/// The clauses of the filters, in order.
pub open spec fn filter_clauses(filters: Seq<FilterView>) -> Seq<Seq<char>> {
    Seq::new(filters.len(), |i: int| filter_clause(filters[i]))
}

/// The smallest limit that any of the filters sets.
pub open spec fn row_limit(filters: Seq<FilterView>) -> Option<u64>
    decreases filters.len(),
{
    if filters.len() == 0 {
        None
    } else {
        let rest = row_limit(filters.drop_last());
        match (rest, filters.last().limit) {
            (Some(a), Some(b)) => Some(if a <= b { a } else { b }),
            (Some(a), None) => Some(a),
            (None, l) => l,
        }
    }
}

/// The end of a query that caps the number of rows.
pub open spec fn limit_suffix(limit: Option<u64>) -> Seq<char> {
    match limit {
        Some(n) => " LIMIT "@ + decimal(n as nat),
        None => Seq::empty(),
    }
}

/// The text of the query that selects the stored events a subscription
/// asks for: the rows that the clause of some filter holds of. Without
/// filters the condition holds of no row.
pub open spec fn query_text(sub: SubscriptionView) -> Seq<char> {
    let clauses = filter_clauses(sub.filters);
    let conditions = if clauses.len() > 0 {
        " WHERE "@ + join(clauses, " OR "@)
    } else {
        " WHERE 1=0 "@
    };
    select_prefix() + conditions + limit_suffix(row_limit(sub.filters))
}

/// Checks if a string is an even number of hex characters, so that it
/// writes bytes.
pub fn is_hex_blob(s: &str) -> (r: bool)
    ensures
        r == (blob(s@) is Some),
{
    let chars = chars_of(s);
    chars.len() % 2 == 0 && is_hex(s)
}

fn hex_literal_list(items: &Vec<String>) -> (out: Vec<String>)
    ensures
        strs(out@) == hex_literals(strs(items@)),
{
    let mut out: Vec<String> = Vec::new();
    let mut i: usize = 0;
    while i < items.len()
        invariant
            i <= items.len(),
            strs(out@) == hex_literals(strs(items@).take(i as int)),
        decreases items.len() - i,
    {
        let ghost next = strs(items@).take(i + 1);
        assert(next.drop_last() =~= strs(items@).take(i as int));
        if is_hex_blob(items[i].as_str()) {
            let mut literal = String::new();
            literal.append("x'");
            literal.append(items[i].as_str());
            literal.append("'");
            out.push(literal);
        }
        i += 1;
    }
    assert(strs(items@).take(i as int) =~= strs(items@));
    out
}

fn numeral_list(items: &Vec<u64>) -> (out: Vec<String>)
    ensures
        strs(out@) == numerals(items@),
{
    let mut out: Vec<String> = Vec::new();
    let mut i: usize = 0;
    while i < items.len()
        invariant
            i <= items.len(),
            out@.len() == i,
            forall|j: int| 0 <= j < i ==> (#[trigger] out@[j])@ == decimal(items@[j] as nat),
        decreases items.len() - i,
    {
        let mut numeral = String::new();
        push_decimal(&mut numeral, items[i]);
        out.push(numeral);
        i += 1;
    }
    out
}

fn make_in_clause(column: &str, values: &Vec<String>) -> (r: String)
    ensures
        r@ == in_clause(column@, strs(values@)),
{
    let mut r = String::new();
    r.append(column);
    r.append(" IN (");
    let list = join_strings(values, ", ");
    r.append(list.as_str());
    r.append(")");
    r
}

fn push_hex_set(components: &mut Vec<String>, column: &str, values: &Option<Vec<String>>)
    ensures
        strs(final(components)@) == with_hex_set(
            strs(old(components)@),
            column@,
            opt_strs(*values),
        ),
{
    if let Some(v) = values {
        let literals = hex_literal_list(v);
        let clause = make_in_clause(column, &literals);
        components.push(clause);
    }
}

fn push_bound(components: &mut Vec<String>, operator: &str, bound: Option<u64>)
    ensures
        strs(final(components)@) == with_bound(strs(old(components)@), operator@, bound),
{
    if let Some(t) = bound {
        let mut clause = String::new();
        clause.append("created_at ");
        clause.append(operator);
        clause.append(" ");
        push_decimal(&mut clause, t);
        components.push(clause);
    }
}

fn make_filter_clause(f: &ReqFilter) -> (r: String)
    ensures
        r@ == filter_clause(f@),
{
    let mut components: Vec<String> = Vec::new();
    assert(strs(components@) =~= Seq::empty());
    push_hex_set(&mut components, "author", &f.authors);
    if let Some(k) = &f.kinds {
        let list = numeral_list(k);
        let clause = make_in_clause("kind", &list);
        let ghost prev = strs(components@);
        components.push(clause);
        assert(strs(components@) =~= prev.push(in_clause("kind"@, numerals(k@))));
    }
    push_hex_set(&mut components, "event_hash", &f.ids);
    push_hex_set(&mut components, "referenced_event", &f.events);
    push_hex_set(&mut components, "referenced_pubkey", &f.pubkeys);
    push_bound(&mut components, ">", f.since);
    push_bound(&mut components, "<", f.until);
    if components.len() > 0 {
        let mut r = String::new();
        r.append("( ");
        let body = join_strings(&components, " AND ");
        r.append(body.as_str());
        r.append(" )");
        r
    } else {
        " 1=1 ".to_owned()
    }
}

/// The smallest limit that any filter of the subscription sets.
pub fn row_limit_of(sub: &Subscription) -> (r: Option<u64>)
    ensures
        r == row_limit(sub@.filters),
{
    let mut r: Option<u64> = None;
    let mut i: usize = 0;
    while i < sub.filters.len()
        invariant
            i <= sub.filters.len(),
            r == row_limit(sub@.filters.take(i as int)),
        decreases sub.filters.len() - i,
    {
        let ghost next = sub@.filters.take(i + 1);
        assert(next.drop_last() =~= sub@.filters.take(i as int));
        r = match (r, sub.filters[i].limit) {
            (Some(a), Some(b)) => Some(if a <= b { a } else { b }),
            (Some(a), None) => Some(a),
            (None, l) => l,
        };
        i += 1;
    }
    assert(sub@.filters.take(i as int) =~= sub@.filters);
    r
}

/// Creates the text of the query that selects the stored events a
/// subscription asks for. Values from the client enter the text only as
/// decimal numerals or as blob literals of hexadecimal digits.
pub fn query_from_sub(sub: &Subscription) -> (query: String)
    ensures
        query@ == query_text(sub@),
{
    let mut query =
        "SELECT DISTINCT(e.content) FROM event e LEFT JOIN event_ref er ON e.id=er.event_id LEFT JOIN pubkey_ref pr ON e.id=pr.event_id "
    .to_owned();
    let mut clauses: Vec<String> = Vec::new();
    let mut i: usize = 0;
    while i < sub.filters.len()
        invariant
            i <= sub.filters.len(),
            clauses@.len() == i,
            forall|j: int| 0 <= j < i ==> (#[trigger] clauses@[j])@ == filter_clause(sub@.filters[j]),
        decreases sub.filters.len() - i,
    {
        let clause = make_filter_clause(&sub.filters[i]);
        clauses.push(clause);
        i += 1;
    }
    assert(strs(clauses@) =~= filter_clauses(sub@.filters));
    if clauses.len() > 0 {
        query.append(" WHERE ");
        let body = join_strings(&clauses, " OR ");
        query.append(body.as_str());
    } else {
        query.append(" WHERE 1=0 ");
    }
    if let Some(n) = row_limit_of(sub) {
        query.append(" LIMIT ");
        push_decimal(&mut query, n);
    }
    query
}

/// What an insertion did.
#[derive(Debug, Clone, Copy, PartialEq, Eq, Structural)]
pub enum InsertOutcome {
    /// The event is new and is now stored.
    Inserted,
    /// An event with this identifier was stored before; nothing changed.
    Duplicate,
}

/// Why the store could not do what was asked.
#[derive(Debug, Clone, Copy, PartialEq, Eq, Structural)]
pub enum StoreError {
    /// The store cannot be reached.
    Unavailable,
    /// The store holds data it cannot read.
    Corrupt,
    /// The write collided with another one.
    Conflict,
}

/// Whether some event of `events` has the identifier `id`.
pub open spec fn has_id(events: Seq<EventView>, id: Seq<char>) -> bool {
    exists|i: int| 0 <= i < events.len() && (#[trigger] events[i]).id == id
}

/// Whether no two events of `events` share an identifier.
pub open spec fn distinct_ids(events: Seq<EventView>) -> bool {
    forall|i: int, j: int|
        0 <= i < j < events.len() ==> (#[trigger] events[i]).id != (#[trigger] events[j]).id
}

/// The store after `e` was offered, and what that did.
pub open spec fn inserted(events: Seq<EventView>, e: EventView) -> (Seq<EventView>, InsertOutcome) {
    if has_id(events, e.id) {
        (events, InsertOutcome::Duplicate)
    } else {
        (events.push(e), InsertOutcome::Inserted)
    }
}

/// The stored events that `sub` matches, in the order in which they were
/// stored.
pub open spec fn matching(events: Seq<EventView>, sub: SubscriptionView) -> Seq<EventView>
    decreases events.len(),
{
    if events.len() == 0 {
        Seq::empty()
    } else {
        let rest = matching(events.drop_last(), sub);
        if sub.matches(events.last()) {
            rest.push(events.last())
        } else {
            rest
        }
    }
}

/// The first `limit` of `events`, or all of them where no limit is set.
pub open spec fn capped(events: Seq<EventView>, limit: Option<u64>) -> Seq<EventView> {
    match limit {
        Some(n) => if n < events.len() {
            events.take(n as int)
        } else {
            events
        },
        None => events,
    }
}

/// The stored events a subscription is sent: those it matches, no more
/// than the smallest limit among its filters.
pub open spec fn selected(events: Seq<EventView>, sub: SubscriptionView) -> Seq<EventView> {
    capped(matching(events, sub), row_limit(sub.filters))
}

/// The row that carries `e` to the subscription `sub_id`.
pub open spec fn row_of(sub_id: Seq<char>, e: EventView) -> (Seq<char>, Seq<char>) {
    (sub_id, e.json())
}

/// The row that ends the stored events of `sub_id`.
pub open spec fn end_row(sub_id: Seq<char>) -> (Seq<char>, Seq<char>) {
    (sub_id, "EOSE"@)
}

/// The rows of a query that ran to its end: one for each selected event,
/// then the end marker.
pub open spec fn answer(events: Seq<EventView>, sub: SubscriptionView) -> Seq<
    (Seq<char>, Seq<char>),
> {
    Seq::new(selected(events, sub).len(), |i: int| row_of(sub.id, selected(events, sub)[i])).push(
        end_row(sub.id),
    )
}

/// The rows of a query that may have been cancelled. A query that learns
/// of its cancellation when it has produced `n` rows stops there, without
/// an end marker; one that is not cancelled before it has produced every
/// row runs to its end.
pub open spec fn answer_until(
    events: Seq<EventView>,
    sub: SubscriptionView,
    cancel_after: Option<usize>,
) -> Seq<(Seq<char>, Seq<char>)> {
    match cancel_after {
        Some(n) => if n <= selected(events, sub).len() {
            answer(events, sub).take(n as int)
        } else {
            answer(events, sub)
        },
        None => answer(events, sub),
    }
}

/// The name and text of each result, in order.
pub open spec fn rows_view(rows: Seq<QueryResult>) -> Seq<(Seq<char>, Seq<char>)> {
    Seq::new(rows.len(), |i: int| (rows[i].sub_id@, rows[i].event@))
}

/// Events held in memory, each identifier at most once.
pub struct EventStore {
    events: Vec<Event>,
}

spec fn events_view(events: Seq<Event>) -> Seq<EventView> {
    Seq::new(events.len(), |i: int| events[i]@)
}

impl View for EventStore {
    type V = Seq<EventView>;

    closed spec fn view(&self) -> Seq<EventView> {
        events_view(self.events@)
    }
}

impl EventStore {
    /// An empty store.
    pub fn new() -> (s: EventStore)
        ensures
            s@ == Seq::<EventView>::empty(),
            distinct_ids(s@),
    {
        let s = EventStore { events: Vec::new() };
        s
    }

    /// The number of stored events.
    pub fn len(&self) -> (n: usize)
        ensures
            n == self@.len(),
    {
        self.events.len()
    }

    /// Whether an event with the identifier `id` is stored.
    pub fn contains_id(&self, id: &str) -> (r: bool)
        ensures
            r == has_id(self@, id@),
    {
        let mut i: usize = 0;
        while i < self.events.len()
            invariant
                i <= self.events.len(),
                forall|j: int| 0 <= j < i ==> (#[trigger] self@[j]).id != id@,
            decreases self.events.len() - i,
        {
            if str_eq(self.events[i].id.as_str(), id) {
                assert(self@[i as int].id == id@);
                return true;
            }
            i += 1;
        }
        false
    }

    /// Stores `e` unless an event with its identifier is stored already.
    pub fn insert(&mut self, e: &Event) -> (r: InsertOutcome)
        requires
            distinct_ids(old(self)@),
        ensures
            distinct_ids(final(self)@),
            final(self)@ == inserted(old(self)@, e@).0,
            r == inserted(old(self)@, e@).1,
    {
        if self.contains_id(e.id.as_str()) {
            InsertOutcome::Duplicate
        } else {
            let ghost before = self@;
            self.events.push(e.clone());
            assert(self@ =~= before.push(e@));
            InsertOutcome::Inserted
        }
    }
}

/// Persists an event to the store. Returns the number of events added:
/// one, or zero if the event was stored before.
pub fn write_event(store: &mut EventStore, e: &Event) -> (n: usize)
    requires
        distinct_ids(old(store)@),
    ensures
        distinct_ids(final(store)@),
        final(store)@ == inserted(old(store)@, e@).0,
        n == (if inserted(old(store)@, e@).1 == InsertOutcome::Inserted {
            1usize
        } else {
            0usize
        }),
{
    match store.insert(e) {
        InsertOutcome::Inserted => 1,
        InsertOutcome::Duplicate => 0,
    }
}


/// What matches among the first `n` events is the start of what matches
/// among all.
pub proof fn lemma_matching_prefix(events: Seq<EventView>, n: int, sub: SubscriptionView)
    requires
        0 <= n <= events.len(),
    ensures
        matching(events.take(n), sub).len() <= matching(events, sub).len(),
        matching(events, sub).take(matching(events.take(n), sub).len() as int) == matching(
            events.take(n),
            sub,
        ),
    decreases events.len() - n,
{
    if n < events.len() {
        assert(events.take(n + 1).drop_last() =~= events.take(n));
        lemma_matching_prefix(events, n + 1, sub);
    } else {
        assert(events.take(n) =~= events);
    }
}

/// The rows that carry `events` to `sub_id`, in order.
pub open spec fn rows_of(sub_id: Seq<char>, events: Seq<EventView>) -> Seq<(Seq<char>, Seq<char>)> {
    Seq::new(events.len(), |i: int| row_of(sub_id, events[i]))
}

fn below_limit(n: usize, limit: Option<u64>) -> (r: bool)
    ensures
        r == (limit matches Some(l) ==> n < l),
{
    match limit {
        Some(l) => (n as u64) < l,
        None => true,
    }
}

/// Answers the query of a subscription from the store. `cancel_after`
/// tells after how many rows the query learns that it was cancelled, if it
/// was: it checks before each row and before the end marker.
pub fn db_query(store: &EventStore, sub: &Subscription, cancel_after: Option<usize>) -> (rows: Vec<
    QueryResult,
>)
    ensures
        rows_view(rows@) == answer_until(store@, sub@, cancel_after),
{
    let limit = row_limit_of(sub);
    let mut rows: Vec<QueryResult> = Vec::new();
    let mut i: usize = 0;
    let ghost all = matching(store@, sub@);
    while i < store.events.len() && below_limit(rows.len(), limit)
        invariant
            i <= store.events.len(),
            limit == row_limit(sub@.filters),
            all == matching(store@, sub@),
            rows@.len() == matching(store@.take(i as int), sub@).len(),
            rows_view(rows@) == rows_of(sub@.id, matching(store@.take(i as int), sub@)),
            limit matches Some(l) ==> rows@.len() <= l,
            cancel_after matches Some(n) ==> n >= rows@.len(),
        decreases store.events.len() - i,
    {
        let e = &store.events[i];
        assert(store@.take(i + 1).drop_last() =~= store@.take(i as int));
        if sub.interested_in_event(e) {
            proof {
                lemma_matching_prefix(store@, i as int, sub@);
            }
            match cancel_after {
                Some(n) => {
                    if n == rows.len() {
                        return rows;
                    }
                },
                None => {},
            }
            let ghost before = rows_view(rows@);
            rows.push(QueryResult { sub_id: sub.get_id(), event: e.to_json() });
            assert(rows_view(rows@) =~= before.push(row_of(sub@.id, e@)));
        }
        i += 1;
    }
    proof {
        lemma_matching_prefix(store@, i as int, sub@);
        if i == store.events.len() {
            assert(store@.take(i as int) =~= store@);
        }
        assert(selected(store@, sub@) =~= matching(store@.take(i as int), sub@));
    }
    match cancel_after {
        Some(n) => {
            if n == rows.len() {
                return rows;
            }
        },
        None => {},
    }
    rows.push(QueryResult { sub_id: sub.get_id(), event: "EOSE".to_owned() });
    rows
}

/// What the reader of a query does next.
#[derive(Debug, PartialEq)]
pub enum QueryStep {
    /// Stop without sending anything more: the query was cancelled.
    Abort,
    /// Send this result and go on.
    Send(QueryResult),
    /// Send this end marker and stop: every row was sent.
    Finish(QueryResult),
}

/// Decides what the reader of the query for `sub_id` does when the store
/// has handed it `row`, or nothing more. A query that was cancelled sends
/// nothing, whatever the store handed over.
pub fn query_step(sub_id: &str, cancelled: bool, row: Option<String>) -> (step: QueryStep)
    ensures
        cancelled ==> step is Abort,
        !cancelled ==> match row {
            Some(text) => step matches QueryStep::Send(r) && r.sub_id@ == sub_id@ && r.event@
                == text@,
            None => step matches QueryStep::Finish(r) && r.sub_id@ == sub_id@ && r.event@
                == "EOSE"@,
        },
{
    if cancelled {
        QueryStep::Abort
    } else {
        match row {
            Some(text) => QueryStep::Send(QueryResult { sub_id: sub_id.to_owned(), event: text }),
            None => QueryStep::Finish(
                QueryResult { sub_id: sub_id.to_owned(), event: "EOSE".to_owned() },
            ),
        }
    }
}

/// What a SQL store writes for one event: the row of the event itself and
/// one row for each event and each public key it refers to. Text that is
/// not hexadecimal has no blob.
#[derive(Debug, Clone, PartialEq)]
pub struct EventRecord {
    /// The identifier, as bytes.
    pub event_hash: Option<Vec<u8>>,
    /// When the event was created.
    pub created_at: u64,
    /// The kind of the event.
    pub kind: u64,
    /// The author's public key, as bytes.
    pub author: Option<Vec<u8>>,
    /// The event as JSON text.
    pub content: String,
    /// The referenced events, as bytes.
    pub event_refs: Vec<Option<Vec<u8>>>,
    /// The referenced public keys, as bytes.
    pub pubkey_refs: Vec<Option<Vec<u8>>>,
}

fn blobs_of(items: &Vec<String>) -> (out: Vec<Option<Vec<u8>>>)
    ensures
        out@.len() == items@.len(),
        forall|i: int| 0 <= i < items@.len() ==> opt_bytes(#[trigger] out@[i]) == blob(items@[i]@),
{
    let mut out: Vec<Option<Vec<u8>>> = Vec::new();
    let mut i: usize = 0;
    while i < items.len()
        invariant
            i <= items.len(),
            out@.len() == i,
            forall|j: int| 0 <= j < i ==> opt_bytes(#[trigger] out@[j]) == blob(items@[j]@),
        decreases items.len() - i,
    {
        out.push(hex_decode(items[i].as_str()));
        i += 1;
    }
    out
}

/// Builds what a SQL store writes for `e`.
pub fn event_record(e: &Event) -> (r: EventRecord)
    ensures
        opt_bytes(r.event_hash) == blob(e@.id),
        r.created_at == e@.created_at,
        r.kind == e@.kind,
        opt_bytes(r.author) == blob(e@.pubkey),
        r.content@ == e@.json(),
        r.event_refs@.len() == e@.event_refs().len(),
        forall|i: int|
            0 <= i < e@.event_refs().len() ==> opt_bytes(#[trigger] r.event_refs@[i]) == blob(
                e@.event_refs()[i],
            ),
        r.pubkey_refs@.len() == e@.pubkey_refs().len(),
        forall|i: int|
            0 <= i < e@.pubkey_refs().len() ==> opt_bytes(#[trigger] r.pubkey_refs@[i]) == blob(
                e@.pubkey_refs()[i],
            ),
{
    let etags = e.get_event_tags();
    let ptags = e.get_pubkey_tags();
    let event_refs = blobs_of(&etags);
    let pubkey_refs = blobs_of(&ptags);
    assert forall|i: int| 0 <= i < e@.event_refs().len() implies opt_bytes(
        #[trigger] event_refs@[i],
    ) == blob(e@.event_refs()[i]) by {}
    assert forall|i: int| 0 <= i < e@.pubkey_refs().len() implies opt_bytes(
        #[trigger] pubkey_refs@[i],
    ) == blob(e@.pubkey_refs()[i]) by {}
    EventRecord {
        event_hash: hex_decode(e.id.as_str()),
        created_at: e.created_at,
        kind: e.kind,
        author: hex_decode(e.pubkey.as_str()),
        content: e.to_json(),
        event_refs,
        pubkey_refs,
    }
}

/// An event on its way to the store, with what is known of its sender.
#[derive(Debug, Clone, PartialEq)]
pub struct SubmittedEvent {
    /// The event; the connection has validated it.
    pub event: Event,
    /// Address of the client that sent it.
    pub source_ip: String,
    /// The origin the client named, if any.
    pub origin: Option<String>,
    /// The user agent the client named, if any.
    pub user_agent: Option<String>,
    /// The public key the client has authenticated with, as bytes.
    pub auth_pubkey: Option<Vec<u8>>,
}

/// Mathematical model of a [`SubmittedEvent`].
#[verifier::ext_equal]
pub struct SubmittedView {
    pub event: EventView,
    pub source_ip: Seq<char>,
    pub origin: Option<Seq<char>>,
    pub user_agent: Option<Seq<char>>,
    pub auth_pubkey: Option<Seq<u8>>,
}

impl View for SubmittedEvent {
    type V = SubmittedView;

    open spec fn view(&self) -> SubmittedView {
        SubmittedView {
            event: self.event@,
            source_ip: self.source_ip@,
            origin: opt_string(self.origin),
            user_agent: opt_string(self.user_agent),
            auth_pubkey: opt_bytes(self.auth_pubkey),
        }
    }
}

/// Whether the policy refuses events of the author `pubkey`: a whitelist
/// that does not name the author, or a blacklist that does.
pub open spec fn denied(policy: &Authorization, pubkey: Seq<char>) -> bool {
    ||| (opt_strs(policy.pubkey_whitelist) matches Some(w) && !w.contains(pubkey))
    ||| (opt_strs(policy.pubkey_blacklist) matches Some(b) && b.contains(pubkey))
}

/// Decides whether the policy refuses events of the author `pubkey`.
pub fn is_denied(policy: &Authorization, pubkey: &str) -> (r: bool)
    ensures
        r == denied(policy, pubkey@),
{
    if let Some(w) = &policy.pubkey_whitelist {
        if !contains_string(w, pubkey) {
            return true;
        }
    }
    if let Some(b) = &policy.pubkey_blacklist {
        if contains_string(b, pubkey) {
            return true;
        }
    }
    false
}

impl StoreError {
    /// What the client is told of this failure.
    pub open spec fn reason_text(self) -> Seq<char> {
        match self {
            StoreError::Unavailable => "event store is unavailable"@,
            StoreError::Corrupt => "event store is corrupt"@,
            StoreError::Conflict => "write conflict"@,
        }
    }

    /// What the client is told of this failure.
    pub fn reason(&self) -> (r: &'static str)
        ensures
            r@ == self.reason_text(),
    {
        match self {
            StoreError::Unavailable => "event store is unavailable",
            StoreError::Corrupt => "event store is corrupt",
            StoreError::Conflict => "write conflict",
        }
    }
}

/// What became of one submitted event.
#[derive(Debug, PartialEq)]
pub struct Ingested {
    /// The answer for the client that submitted it.
    pub notice: Notice,
    /// The event, if it is to be published to every connection.
    pub published: Option<Event>,
}

/// Mathematical model of an [`Ingested`].
#[verifier::ext_equal]
pub struct IngestedView {
    pub notice: NoticeView,
    pub published: Option<EventView>,
}

impl View for Ingested {
    type V = IngestedView;

    open spec fn view(&self) -> IngestedView {
        IngestedView {
            notice: self.notice@,
            published: match self.published {
                Some(e) => Some(e@),
                None => None,
            },
        }
    }
}

/// The text with which an author is refused.
pub open spec fn refusal_text() -> Seq<char> {
    "pubkey is not allowed to publish to this relay"@
}

/// What follows from the store's answer to the insertion of `e`: a new
/// event is confirmed and published; a known one is confirmed as a
/// duplicate and not published; a failure is reported and nothing is
/// published.
pub open spec fn outcome_of(e: EventView, result: Result<InsertOutcome, StoreError>)
    -> IngestedView {
    match result {
        Ok(InsertOutcome::Inserted) => IngestedView {
            notice: NoticeView::EventResult {
                id: e.id,
                msg: Seq::empty(),
                status: EventResultStatus::Saved,
            },
            published: Some(e),
        },
        Ok(InsertOutcome::Duplicate) => IngestedView {
            notice: prefixed_view(e.id, Seq::empty(), EventResultStatus::Duplicate),
            published: None,
        },
        Err(err) => IngestedView {
            notice: prefixed_view(e.id, err.reason_text(), EventResultStatus::Error),
            published: None,
        },
    }
}

/// Decides what follows from the store's answer to the insertion of
/// `event`.
pub fn ingest_outcome(event: Event, result: Result<InsertOutcome, StoreError>) -> (r: Ingested)
    ensures
        r@ == outcome_of(event@, result),
{
    let id = event.id.clone();
    match result {
        Ok(InsertOutcome::Inserted) => Ingested {
            notice: Notice::saved(id),
            published: Some(event),
        },
        Ok(InsertOutcome::Duplicate) => Ingested { notice: Notice::duplicate(id), published: None },
        Err(err) => Ingested { notice: Notice::error(id, err.reason()), published: None },
    }
}

/// The store after one submitted event was handled, and what became of
/// the event: an author the policy refuses is told so and nothing is
/// stored; otherwise the event is offered to the store.
pub open spec fn ingested(events: Seq<EventView>, policy: &Authorization, e: EventView) -> (
    Seq<EventView>,
    IngestedView,
) {
    match refusal(policy, e) {
        Some(refused) => (events, refused),
        None => (inserted(events, e).0, outcome_of(e, Ok(inserted(events, e).1))),
    }
}

/// The store after the first `n` submitted events were handled in order,
/// and what became of each.
pub open spec fn writer_run(
    events: Seq<EventView>,
    policy: &Authorization,
    submitted: Seq<EventView>,
    n: nat,
) -> (Seq<EventView>, Seq<IngestedView>)
    decreases n,
{
    if n == 0 || n > submitted.len() {
        (events, Seq::empty())
    } else {
        let (store, done) = writer_run(events, policy, submitted, (n - 1) as nat);
        let (next, outcome) = ingested(store, policy, submitted[n - 1]);
        (next, done.push(outcome))
    }
}

/// The models of the submitted events, in order.
pub open spec fn submitted_view(submitted: Seq<SubmittedEvent>) -> Seq<EventView> {
    Seq::new(submitted.len(), |i: int| submitted[i].event@)
}

/// The models of what became of the events, in order.
pub open spec fn ingested_view(done: Seq<Ingested>) -> Seq<IngestedView> {
    Seq::new(done.len(), |i: int| done[i]@)
}

/// What a submitted event is answered with when the policy refuses its
/// author; nothing when the author may publish.
pub open spec fn refusal(policy: &Authorization, e: EventView) -> Option<IngestedView> {
    if denied(policy, e.pubkey) {
        Some(
            IngestedView {
                notice: prefixed_view(e.id, refusal_text(), EventResultStatus::Blocked),
                published: None,
            },
        )
    } else {
        None
    }
}

/// Decides on the admission of a submitted event: returns the answer that
/// refuses it, or nothing where its author may publish.
pub fn admission_refusal(policy: &Authorization, event: &Event) -> (r: Option<Ingested>)
    ensures
        match r {
            Some(i) => refusal(policy, event@) == Some(i@),
            None => refusal(policy, event@) is None,
        },
{
    if is_denied(policy, event.pubkey.as_str()) {
        Some(
            Ingested {
                notice: Notice::blocked(
                    event.id.clone(),
                    "pubkey is not allowed to publish to this relay",
                ),
                published: None,
            },
        )
    } else {
        None
    }
}

/// Handles one submitted event: admission, then insertion.
pub fn ingest(store: &mut EventStore, policy: &Authorization, event: Event) -> (r: Ingested)
    requires
        distinct_ids(old(store)@),
    ensures
        distinct_ids(final(store)@),
        final(store)@ == ingested(old(store)@, policy, event@).0,
        r@ == ingested(old(store)@, policy, event@).1,
{
    match admission_refusal(policy, &event) {
        Some(refused) => refused,
        None => {
            let outcome = store.insert(&event);
            ingest_outcome(event, Ok(outcome))
        },
    }
}

/// Persists the submitted events in the order in which they were
/// submitted, and says for each what the client is told and whether the
/// event is published.
pub fn db_writer(store: &mut EventStore, policy: &Authorization, submitted: Vec<SubmittedEvent>)
    -> (done: Vec<Ingested>)
    requires
        distinct_ids(old(store)@),
    ensures
        distinct_ids(final(store)@),
        final(store)@ == writer_run(
            old(store)@,
            policy,
            submitted_view(submitted@),
            submitted@.len(),
        ).0,
        ingested_view(done@) == writer_run(
            old(store)@,
            policy,
            submitted_view(submitted@),
            submitted@.len(),
        ).1,
{
    let mut done: Vec<Ingested> = Vec::new();
    let ghost start = store@;
    let ghost input = submitted_view(submitted@);
    let mut i: usize = 0;
    while i < submitted.len()
        invariant
            i <= submitted.len(),
            input == submitted_view(submitted@),
            distinct_ids(store@),
            store@ == writer_run(start, policy, input, i as nat).0,
            ingested_view(done@) == writer_run(start, policy, input, i as nat).1,
        decreases submitted.len() - i,
    {
        let event = submitted[i].event.clone();
        let r = ingest(store, policy, event);
        done.push(r);
        i += 1;
    }
    done
}

/// The events that were published, in the order in which they were
/// handled.
pub open spec fn bus(done: Seq<IngestedView>) -> Seq<EventView>
    decreases done.len(),
{
    if done.len() == 0 {
        Seq::empty()
    } else {
        let rest = bus(done.drop_last());
        match done.last().published {
            Some(e) => rest.push(e),
            None => rest,
        }
    }
}

/// Collects the events that were published, in the order in which they
/// were handled.
pub fn published_events(done: &Vec<Ingested>) -> (out: Vec<Event>)
    ensures
        Seq::new(out@.len(), |i: int| out@[i]@) == bus(ingested_view(done@)),
{
    let mut out: Vec<Event> = Vec::new();
    let mut i: usize = 0;
    while i < done.len()
        invariant
            i <= done.len(),
            Seq::new(out@.len(), |k: int| out@[k]@) == bus(ingested_view(done@).take(i as int)),
        decreases done.len() - i,
    {
        assert(ingested_view(done@).take(i + 1).drop_last() =~= ingested_view(done@).take(
            i as int,
        ));
        match &done[i].published {
            Some(e) => {
                out.push(e.clone());
            },
            None => {},
        }
        i += 1;
    }
    assert(ingested_view(done@).take(i as int) =~= ingested_view(done@));
    out
}

/// Storing is idempotent: offering an event a second time changes nothing
/// and is reported as a duplicate. An event whose identifier the store did
/// not hold is inserted the first time, so that of two offers exactly one
/// inserts.
pub proof fn insert_twice(events: Seq<EventView>, e: EventView)
    requires
        distinct_ids(events),
    ensures
        distinct_ids(inserted(events, e).0),
        inserted(inserted(events, e).0, e) == (inserted(events, e).0, InsertOutcome::Duplicate),
        !has_id(events, e.id) ==> inserted(events, e) == (events.push(e), InsertOutcome::Inserted),
{
    let after = inserted(events, e).0;
    if !has_id(events, e.id) {
        assert(after[events.len() as int].id == e.id);
        assert forall|i: int, j: int| 0 <= i < j < after.len() implies (#[trigger] after[i]).id != (
        #[trigger] after[j]).id by {}
    }
}

/// Whatever is submitted, the store keeps one event per identifier and
/// loses none, and every event is published at most once: the published
/// events have distinct identifiers, none of which the store held before
/// and all of which it holds afterwards.
pub proof fn published_at_most_once(
    events: Seq<EventView>,
    policy: &Authorization,
    submitted: Seq<EventView>,
    n: nat,
)
    requires
        distinct_ids(events),
        n <= submitted.len(),
    ensures
        distinct_ids(writer_run(events, policy, submitted, n).0),
        distinct_ids(bus(writer_run(events, policy, submitted, n).1)),
        forall|id: Seq<char>|
            has_id(events, id) ==> has_id(writer_run(events, policy, submitted, n).0, id),
        forall|k: int|
            0 <= k < bus(writer_run(events, policy, submitted, n).1).len() ==> {
                let e = #[trigger] bus(writer_run(events, policy, submitted, n).1)[k];
                !has_id(events, e.id) && has_id(writer_run(events, policy, submitted, n).0, e.id)
            },
    decreases n,
{
    if n > 0 {
        published_at_most_once(events, policy, submitted, (n - 1) as nat);
        let (store, done) = writer_run(events, policy, submitted, (n - 1) as nat);
        let e = submitted[n - 1];
        let (next, outcome) = ingested(store, policy, e);
        let all = done.push(outcome);
        assert(all.drop_last() =~= done);
        insert_twice(store, e);
        assert forall|id: Seq<char>| has_id(store, id) implies has_id(next, id) by {
            let i = choose|i: int| 0 <= i < store.len() && (#[trigger] store[i]).id == id;
            assert(next[i].id == id);
        }
        assert forall|id: Seq<char>| has_id(events, id) implies has_id(next, id) by {}
        if outcome.published is Some {
            let b = bus(all);
            assert forall|i: int, j: int| 0 <= i < j < b.len() implies (#[trigger] b[i]).id != (
            #[trigger] b[j]).id by {}
            assert forall|k: int| 0 <= k < b.len() implies {
                let x = #[trigger] b[k];
                !has_id(events, x.id) && has_id(next, x.id)
            } by {}
        } else {
            assert forall|k: int| 0 <= k < bus(all).len() implies {
                let x = #[trigger] bus(all)[k];
                !has_id(events, x.id) && has_id(next, x.id)
            } by {}
        }
    }
}

/// What was published among the first `k` outcomes is the start of what
/// was published among all.
pub proof fn lemma_bus_prefix(done: Seq<IngestedView>, k: int)
    requires
        0 <= k <= done.len(),
    ensures
        bus(done.take(k)).len() <= bus(done).len(),
        bus(done).take(bus(done.take(k)).len() as int) == bus(done.take(k)),
    decreases done.len() - k,
{
    if k < done.len() {
        assert(done.take(k + 1).drop_last() =~= done.take(k));
        lemma_bus_prefix(done, k + 1);
    } else {
        assert(done.take(k) =~= done);
    }
}

/// The writer keeps the order of submission: each outcome belongs to the
/// event submitted at its place, and of two events that are both
/// published, the one submitted first is published first.
pub proof fn publication_keeps_order(
    events: Seq<EventView>,
    policy: &Authorization,
    submitted: Seq<EventView>,
    i: int,
    j: int,
)
    requires
        0 <= i < j < submitted.len(),
        writer_run(events, policy, submitted, submitted.len()).1[i].published is Some,
        writer_run(events, policy, submitted, submitted.len()).1[j].published is Some,
    ensures
        ({
            let done = writer_run(events, policy, submitted, submitted.len()).1;
            let a = bus(done.take(i)).len() as int;
            let b = bus(done.take(j)).len() as int;
            &&& done.len() == submitted.len()
            &&& done[i].published == Some(submitted[i])
            &&& done[j].published == Some(submitted[j])
            &&& 0 <= a < b < bus(done).len()
            &&& bus(done)[a] == submitted[i]
            &&& bus(done)[b] == submitted[j]
        }),
{
    let done = writer_run(events, policy, submitted, submitted.len()).1;
    lemma_writer_outcomes(events, policy, submitted, submitted.len(), i);
    lemma_writer_outcomes(events, policy, submitted, submitted.len(), j);
    lemma_bus_prefix(done, i + 1);
    lemma_bus_prefix(done, j + 1);
    assert(done.take(i + 1).drop_last() =~= done.take(i));
    assert(done.take(j + 1).drop_last() =~= done.take(j));
    lemma_bus_grows(done, i + 1, j);
    let a = bus(done.take(i)).len() as int;
    let b = bus(done.take(j)).len() as int;
    assert(bus(done.take(i + 1))[a] == submitted[i]);
    assert(bus(done.take(j + 1))[b] == submitted[j]);
}

/// More outcomes never publish less.
pub proof fn lemma_bus_grows(done: Seq<IngestedView>, k: int, m: int)
    requires
        0 <= k <= m <= done.len(),
    ensures
        bus(done.take(k)).len() <= bus(done.take(m)).len(),
    decreases m - k,
{
    if k < m {
        assert(done.take(m).drop_last() =~= done.take(m - 1));
        lemma_bus_grows(done, k, m - 1);
    }
}

/// The writer reports one outcome for each submitted event, and what it
/// publishes for an event is that event.
pub proof fn lemma_writer_outcomes(
    events: Seq<EventView>,
    policy: &Authorization,
    submitted: Seq<EventView>,
    n: nat,
    i: int,
)
    requires
        n <= submitted.len(),
        0 <= i < n,
    ensures
        writer_run(events, policy, submitted, n).1.len() == n,
        writer_run(events, policy, submitted, n).1[i] == ingested(
            writer_run(events, policy, submitted, i as nat).0,
            policy,
            submitted[i],
        ).1,
        writer_run(events, policy, submitted, n).1[i].published is Some ==> writer_run(
            events,
            policy,
            submitted,
            n,
        ).1[i].published == Some(submitted[i]),
    decreases n,
{
    if i < n - 1 {
        lemma_writer_outcomes(events, policy, submitted, (n - 1) as nat, i);
        lemma_writer_len(events, policy, submitted, (n - 1) as nat);
    } else {
        lemma_writer_len(events, policy, submitted, (n - 1) as nat);
    }
}

/// The writer reports one outcome for each submitted event.
pub proof fn lemma_writer_len(
    events: Seq<EventView>,
    policy: &Authorization,
    submitted: Seq<EventView>,
    n: nat,
)
    requires
        n <= submitted.len(),
    ensures
        writer_run(events, policy, submitted, n).1.len() == n,
    decreases n,
{
    if n > 0 {
        lemma_writer_len(events, policy, submitted, (n - 1) as nat);
    }
}

/// A query that learns of its cancellation after `n` rows has sent no
/// more than `n` rows, and does not send the end marker if it learns of it
/// before it has sent every row.
pub proof fn cancelled_query_stops(events: Seq<EventView>, sub: SubscriptionView, n: usize)
    ensures
        answer_until(events, sub, Some(n)).len() <= n || answer_until(events, sub, Some(n))
            == answer(events, sub),
        n <= selected(events, sub).len() ==> answer_until(events, sub, Some(n)).len() == n
            && answer_until(events, sub, Some(n)) == rows_of(
            sub.id,
            selected(events, sub).take(n as int),
        ),
{
}

/// Where a subscription matches no stored event, none is selected.
pub proof fn lemma_matching_none(events: Seq<EventView>, sub: SubscriptionView)
    requires
        forall|k: int| 0 <= k < events.len() ==> !sub.matches(#[trigger] events[k]),
    ensures
        matching(events, sub) == Seq::<EventView>::empty(),
    decreases events.len(),
{
    if events.len() > 0 {
        assert forall|k: int| 0 <= k < events.drop_last().len() implies !sub.matches(
            #[trigger] events.drop_last()[k],
        ) by {}
        lemma_matching_none(events.drop_last(), sub);
    }
}

/// An event that was ingested is found again: after an accepted, new event
/// was handled, a query that matches this event and no other stored event,
/// and that does not limit its rows to none, answers with the row of the
/// event and then the end marker.
pub proof fn stored_event_is_found(
    events: Seq<EventView>,
    policy: &Authorization,
    e: EventView,
    sub: SubscriptionView,
)
    requires
        distinct_ids(events),
        !denied(policy, e.pubkey),
        !has_id(events, e.id),
        sub.matches(e),
        forall|k: int| 0 <= k < events.len() ==> !sub.matches(#[trigger] events[k]),
        row_limit(sub.filters) != Some(0u64),
    ensures
        ingested(events, policy, e).1.published == Some(e),
        answer(ingested(events, policy, e).0, sub) == seq![row_of(sub.id, e), end_row(sub.id)],
{
    let store = ingested(events, policy, e).0;
    assert(store.drop_last() =~= events);
    lemma_matching_none(events, sub);
}

/// The stored events of the author `pubkey`, in the order in which they
/// were stored.
pub open spec fn by_author(events: Seq<EventView>, pubkey: Seq<char>) -> Seq<EventView>
    decreases events.len(),
{
    if events.len() == 0 {
        Seq::empty()
    } else {
        let rest = by_author(events.drop_last(), pubkey);
        if events.last().pubkey == pubkey {
            rest.push(events.last())
        } else {
            rest
        }
    }
}

/// The events that an export of one author's events hands over when it
/// learns of its cancellation after `cancel_after` events, if it does.
pub open spec fn export_until(
    events: Seq<EventView>,
    pubkey: Seq<char>,
    cancel_after: Option<usize>,
) -> Seq<EventView> {
    match cancel_after {
        Some(n) => if n < by_author(events, pubkey).len() {
            by_author(events, pubkey).take(n as int)
        } else {
            by_author(events, pubkey)
        },
        None => by_author(events, pubkey),
    }
}

/// What is by the author among the first `n` events is the start of what
/// is by the author among all.
pub proof fn lemma_by_author_prefix(events: Seq<EventView>, n: int, pubkey: Seq<char>)
    requires
        0 <= n <= events.len(),
    ensures
        by_author(events.take(n), pubkey).len() <= by_author(events, pubkey).len(),
        by_author(events, pubkey).take(by_author(events.take(n), pubkey).len() as int)
            == by_author(events.take(n), pubkey),
    decreases events.len() - n,
{
    if n < events.len() {
        assert(events.take(n + 1).drop_last() =~= events.take(n));
        lemma_by_author_prefix(events, n + 1, pubkey);
    } else {
        assert(events.take(n) =~= events);
    }
}

/// Collects every stored event of the author `pubkey`, for export.
/// `cancel_after` tells after how many events the export learns that it
/// was cancelled, if it was: it checks before each event.
pub fn query_all_for_author(store: &EventStore, pubkey: &str, cancel_after: Option<usize>) -> (out:
    Vec<Event>)
    ensures
        Seq::new(out@.len(), |i: int| out@[i]@) == export_until(store@, pubkey@, cancel_after),
{
    let mut out: Vec<Event> = Vec::new();
    let mut i: usize = 0;
    while i < store.events.len()
        invariant
            i <= store.events.len(),
            Seq::new(out@.len(), |k: int| out@[k]@) == by_author(store@.take(i as int), pubkey@),
            cancel_after matches Some(n) ==> n >= out@.len(),
        decreases store.events.len() - i,
    {
        let e = &store.events[i];
        assert(store@.take(i + 1).drop_last() =~= store@.take(i as int));
        if str_eq(e.pubkey.as_str(), pubkey) {
            proof {
                lemma_by_author_prefix(store@, i + 1, pubkey@);
            }
            match cancel_after {
                Some(n) => {
                    if n == out.len() {
                        return out;
                    }
                },
                None => {},
            }
            out.push(e.clone());
        }
        i += 1;
    }
    assert(store@.take(i as int) =~= store@);
    out
}

/// A query that runs to its end hands over the end marker exactly once,
/// as its last row: every row before it carries a selected event.
pub proof fn answer_ends_with_one_marker(events: Seq<EventView>, sub: SubscriptionView)
    ensures
        answer(events, sub).len() == selected(events, sub).len() + 1,
        answer(events, sub).last() == end_row(sub.id),
        forall|k: int|
            0 <= k < selected(events, sub).len() ==> #[trigger] answer(events, sub)[k] == row_of(
                sub.id,
                selected(events, sub)[k],
            ) && answer(events, sub)[k].1 != "EOSE"@,
{
    assert forall|k: int| 0 <= k < selected(events, sub).len() implies #[trigger] answer(
        events,
        sub,
    )[k] == row_of(sub.id, selected(events, sub)[k]) && answer(events, sub)[k].1 != "EOSE"@ by {
        lemma_json_is_no_marker(selected(events, sub)[k]);
    }
}

} // verus!
