//! Subscriptions: named sets of filters, and the interest test on events.
use vstd::prelude::*;
use crate::event::{Event, EventView};
use crate::text::{
    clone_opt_strings, contains_string, contains_u64, same_opt_strings, str_eq, strs,
};

verus! {

/// A conjunction of optional conditions on one event.
#[derive(Debug, PartialEq)]
pub struct ReqFilter {
    /// Accepted event identifiers.
    pub ids: Option<Vec<String>>,
    /// Accepted kinds.
    pub kinds: Option<Vec<u64>>,
    /// Exclusive lower bound on the creation time.
    pub since: Option<u64>,
    /// Exclusive upper bound on the creation time.
    pub until: Option<u64>,
    /// Accepted author public keys.
    pub authors: Option<Vec<String>>,
    /// Accepted referenced events.
    pub events: Option<Vec<String>>,
    /// Accepted referenced public keys.
    pub pubkeys: Option<Vec<String>>,
    /// Largest number of stored events wanted.
    pub limit: Option<u64>,
}

/// Mathematical model of a [`ReqFilter`].
#[verifier::ext_equal]
pub struct FilterView {
    pub ids: Option<Seq<Seq<char>>>,
    pub kinds: Option<Seq<u64>>,
    pub since: Option<u64>,
    pub until: Option<u64>,
    pub authors: Option<Seq<Seq<char>>>,
    pub events: Option<Seq<Seq<char>>>,
    pub pubkeys: Option<Seq<Seq<char>>>,
    pub limit: Option<u64>,
}

/// The model of an optional list of strings.
pub open spec fn opt_strs(v: Option<Vec<String>>) -> Option<Seq<Seq<char>>> {
    match v {
        Some(items) => Some(strs(items@)),
        None => None,
    }
}

impl View for ReqFilter {
    type V = FilterView;

    open spec fn view(&self) -> FilterView {
        FilterView {
            ids: opt_strs(self.ids),
            kinds: match self.kinds {
                Some(k) => Some(k@),
                None => None,
            },
            since: self.since,
            until: self.until,
            authors: opt_strs(self.authors),
            events: opt_strs(self.events),
            pubkeys: opt_strs(self.pubkeys),
            limit: self.limit,
        }
    }
}

/// Whether some element of `values` is among `wanted`.
pub open spec fn any_in(values: Seq<Seq<char>>, wanted: Seq<Seq<char>>) -> bool {
    exists|i: int| 0 <= i < values.len() && wanted.contains(#[trigger] values[i])
}

impl FilterView {
    /// Whether the event meets every condition that the filter sets.
    pub open spec fn matches(self, e: EventView) -> bool {
        &&& (self.ids matches Some(ids) ==> ids.contains(e.id))
        &&& (self.authors matches Some(authors) ==> authors.contains(e.pubkey))
        &&& (self.kinds matches Some(kinds) ==> kinds.contains(e.kind))
        &&& (self.events matches Some(events) ==> any_in(e.event_refs(), events))
        &&& (self.pubkeys matches Some(pubkeys) ==> any_in(e.pubkey_refs(), pubkeys))
        &&& (self.since matches Some(t) ==> e.created_at > t)
        &&& (self.until matches Some(t) ==> e.created_at < t)
    }

    /// Whether the filter sets no condition on identifiers, authors, kinds
    /// or references.
    pub open spec fn is_unselective(self) -> bool {
        &&& self.ids is None
        &&& self.authors is None
        &&& self.kinds is None
        &&& self.events is None
        &&& self.pubkeys is None
    }

    /// Whether only events created after `now` can match.
    pub open spec fn is_future_only(self, now: u64) -> bool {
        self.since matches Some(t) && t >= now
    }
}

/// A client's named request for events.
#[derive(Debug, PartialEq)]
pub struct Subscription {
    /// Name the client chose; unique within its connection.
    pub id: String,
    /// The filters; an event is wanted when any of them matches.
    pub filters: Vec<ReqFilter>,
}

/// Mathematical model of a [`Subscription`].
#[verifier::ext_equal]
pub struct SubscriptionView {
    pub id: Seq<char>,
    pub filters: Seq<FilterView>,
}

/// The models of a sequence of filters, in order.
pub open spec fn filters_view(f: Seq<ReqFilter>) -> Seq<FilterView> {
    Seq::new(f.len(), |i: int| f[i]@)
}

impl View for Subscription {
    type V = SubscriptionView;

    open spec fn view(&self) -> SubscriptionView {
        SubscriptionView { id: self.id@, filters: filters_view(self.filters@) }
    }
}

impl SubscriptionView {
    /// Whether any filter matches the event.
    pub open spec fn matches(self, e: EventView) -> bool {
        exists|i: int| 0 <= i < self.filters.len() && (#[trigger] self.filters[i]).matches(e)
    }

    /// Whether no filter is selective.
    pub open spec fn is_scraper(self) -> bool {
        forall|i: int| 0 <= i < self.filters.len() ==> (#[trigger] self.filters[i]).is_unselective()
    }

    /// Whether stored events could match: some filter admits events created
    /// at or before `now`.
    pub open spec fn needs_historical(self, now: u64) -> bool {
        exists|i: int|
            0 <= i < self.filters.len() && !(#[trigger] self.filters[i]).is_future_only(now)
    }
}

fn any_string_in(values: &Vec<String>, wanted: &Vec<String>) -> (r: bool)
    ensures
        r == any_in(strs(values@), strs(wanted@)),
{
    let mut i: usize = 0;
    while i < values.len()
        invariant
            i <= values.len(),
            forall|j: int| 0 <= j < i ==> !strs(wanted@).contains(#[trigger] strs(values@)[j]),
        decreases values.len() - i,
    {
        if contains_string(wanted, values[i].as_str()) {
            assert(strs(wanted@).contains(strs(values@)[i as int]));
            return true;
        }
        i += 1;
    }
    false
}

impl ReqFilter {
    /// A filter that sets no condition; it matches every event.
    pub fn new() -> (f: ReqFilter)
        ensures
            f@ == (FilterView {
                ids: None,
                kinds: None,
                since: None,
                until: None,
                authors: None,
                events: None,
                pubkeys: None,
                limit: None,
            }),
    {
        ReqFilter {
            ids: None,
            kinds: None,
            since: None,
            until: None,
            authors: None,
            events: None,
            pubkeys: None,
            limit: None,
        }
    }

    /// Whether the event meets every condition that the filter sets.
    pub fn interested_in_event(&self, event: &Event) -> (r: bool)
        ensures
            r == self@.matches(event@),
    {
        if let Some(ids) = &self.ids {
            if !contains_string(ids, event.id.as_str()) {
                return false;
            }
        }
        if let Some(authors) = &self.authors {
            if !contains_string(authors, event.pubkey.as_str()) {
                return false;
            }
        }
        if let Some(kinds) = &self.kinds {
            if !contains_u64(kinds, event.kind) {
                return false;
            }
        }
        if let Some(events) = &self.events {
            let refs = event.get_event_tags();
            if !any_string_in(&refs, events) {
                return false;
            }
        }
        if let Some(pubkeys) = &self.pubkeys {
            let refs = event.get_pubkey_tags();
            if !any_string_in(&refs, pubkeys) {
                return false;
            }
        }
        if let Some(t) = self.since {
            if !(event.created_at > t) {
                return false;
            }
        }
        if let Some(t) = self.until {
            if !(event.created_at < t) {
                return false;
            }
        }
        true
    }

    /// Whether the filter sets no condition on identifiers, authors, kinds
    /// or references.
    pub fn is_unselective(&self) -> (r: bool)
        ensures
            r == self@.is_unselective(),
    {
        self.ids.is_none() && self.authors.is_none() && self.kinds.is_none()
            && self.events.is_none() && self.pubkeys.is_none()
    }
}

impl Subscription {
    /// The name of the subscription.
    pub fn get_id(&self) -> (id: String)
        ensures
            id@ == self@.id,
    {
        self.id.clone()
    }

    /// Whether the subscription wants the event: the test that the live
    /// path applies to every published event.
    pub fn interested_in_event(&self, event: &Event) -> (r: bool)
        ensures
            r == self@.matches(event@),
    {
        self.matches(event)
    }

    /// Whether any filter matches the event.
    pub fn matches(&self, event: &Event) -> (r: bool)
        ensures
            r == self@.matches(event@),
    {
        let mut i: usize = 0;
        while i < self.filters.len()
            invariant
                i <= self.filters.len(),
                forall|j: int| 0 <= j < i ==> !(#[trigger] self@.filters[j]).matches(event@),
            decreases self.filters.len() - i,
        {
            if self.filters[i].interested_in_event(event) {
                assert(self@.filters[i as int].matches(event@));
                return true;
            }
            i += 1;
        }
        false
    }

    /// Whether no filter is selective: the request asks for everything
    /// within its time bounds.
    pub fn is_scraper(&self) -> (r: bool)
        ensures
            r == self@.is_scraper(),
    {
        let mut i: usize = 0;
        while i < self.filters.len()
            invariant
                i <= self.filters.len(),
                forall|j: int| 0 <= j < i ==> (#[trigger] self@.filters[j]).is_unselective(),
            decreases self.filters.len() - i,
        {
            if !self.filters[i].is_unselective() {
                assert(!self@.filters[i as int].is_unselective());
                return false;
            }
            i += 1;
        }
        true
    }

    /// Whether stored events could match at time `now`.
    pub fn needs_historical_events(&self, now: u64) -> (r: bool)
        ensures
            r == self@.needs_historical(now),
    {
        let mut i: usize = 0;
        while i < self.filters.len()
            invariant
                i <= self.filters.len(),
                forall|j: int| 0 <= j < i ==> (#[trigger] self@.filters[j]).is_future_only(now),
            decreases self.filters.len() - i,
        {
            let future_only = match self.filters[i].since {
                Some(t) => t >= now,
                None => false,
            };
            if !future_only {
                assert(!self@.filters[i as int].is_future_only(now));
                return true;
            }
            i += 1;
        }
        false
    }
}

fn same_u64s(x: &Vec<u64>, y: &Vec<u64>) -> (r: bool)
    ensures
        r == (x@ == y@),
{
    if x.len() != y.len() {
        return false;
    }
    let mut i: usize = 0;
    while i < x.len()
        invariant
            i <= x.len(),
            x.len() == y.len(),
            forall|j: int| 0 <= j < i ==> x@[j] == y@[j],
        decreases x.len() - i,
    {
        if x[i] != y[i] {
            return false;
        }
        i += 1;
    }
    assert(x@ =~= y@);
    true
}

fn same_numbers(a: &Option<Vec<u64>>, b: &Option<Vec<u64>>) -> (r: bool)
    ensures
        r == (match (*a, *b) {
            (Some(x), Some(y)) => x@ == y@,
            (None, None) => true,
            _ => false,
        }),
{
    match (a, b) {
        (Some(x), Some(y)) => same_u64s(x, y),
        (None, None) => true,
        _ => false,
    }
}

impl Clone for ReqFilter {
    fn clone(&self) -> (r: Self)
        ensures
            r@ == self@,
    {
        let kinds = match &self.kinds {
            Some(k) => Some(k.clone()),
            None => None,
        };
        let r = ReqFilter {
            ids: clone_opt_strings(&self.ids),
            kinds,
            since: self.since,
            until: self.until,
            authors: clone_opt_strings(&self.authors),
            events: clone_opt_strings(&self.events),
            pubkeys: clone_opt_strings(&self.pubkeys),
            limit: self.limit,
        };
        r
    }
}

impl ReqFilter {
    /// Whether both filters set the same conditions.
    pub fn same_as(&self, other: &ReqFilter) -> (r: bool)
        ensures
            r == (self@ == other@),
    {
        let r = same_opt_strings(&self.ids, &other.ids) && same_numbers(&self.kinds, &other.kinds)
            && self.since == other.since && self.until == other.until && same_opt_strings(
            &self.authors,
            &other.authors,
        ) && same_opt_strings(&self.events, &other.events) && same_opt_strings(
            &self.pubkeys,
            &other.pubkeys,
        ) && self.limit == other.limit;
        r
    }
}

impl Clone for Subscription {
    fn clone(&self) -> (r: Self)
        ensures
            r@ == self@,
    {
        let mut filters: Vec<ReqFilter> = Vec::new();
        let mut i: usize = 0;
        while i < self.filters.len()
            invariant
                i <= self.filters.len(),
                filters@.len() == i,
                forall|j: int| 0 <= j < i ==> (#[trigger] filters@[j])@ == self.filters@[j]@,
            decreases self.filters.len() - i,
        {
            filters.push(self.filters[i].clone());
            i += 1;
        }
        let r = Subscription { id: self.id.clone(), filters };
        r
    }
}

impl Subscription {
    /// Whether both subscriptions have the same name and the same filters.
    pub fn same_as(&self, other: &Subscription) -> (r: bool)
        ensures
            r == (self@ == other@),
    {
        if !str_eq(self.id.as_str(), other.id.as_str()) {
            return false;
        }
        if self.filters.len() != other.filters.len() {
            assert(self@.filters.len() != other@.filters.len());
            return false;
        }
        let mut i: usize = 0;
        while i < self.filters.len()
            invariant
                i <= self.filters.len(),
                self.filters.len() == other.filters.len(),
                forall|j: int| 0 <= j < i ==> self@.filters[j] == other@.filters[j],
            decreases self.filters.len() - i,
        {
            if !self.filters[i].same_as(&other.filters[i]) {
                assert(self@.filters[i as int] != other@.filters[i as int]);
                return false;
            }
            i += 1;
        }
        assert(self@ =~= other@);
        true
    }
}

} // verus!
