//! The settings the relay core reads.
use vstd::prelude::*;

verus! {

/// What the relay says of itself.
#[derive(Debug, Clone, PartialEq)]
pub struct Info {
    /// The name of the relay.
    pub name: Option<String>,
    /// What the relay says it is for.
    pub description: Option<String>,
    /// The address under which clients reach this relay.
    pub relay_url: Option<String>,
    /// Path of a page to show to browsers, if any.
    pub relay_page: Option<String>,
}

/// Limits on what a client may ask for.
#[derive(Debug, Clone, PartialEq)]
pub struct Limits {
    /// Largest accepted event frame, in bytes; zero or unset for no limit.
    pub max_event_bytes: Option<usize>,
    /// Subscriptions a connection may open per minute; zero or unset for
    /// no limit.
    pub subscriptions_per_min: Option<u32>,
    /// Whether subscriptions without any selective condition are answered
    /// without a query.
    pub limit_scrapers: bool,
}

/// Who may do what.
#[derive(Debug, Clone, PartialEq)]
pub struct Authorization {
    /// The only authors whose events are accepted, if set.
    pub pubkey_whitelist: Option<Vec<String>>,
    /// Authors whose events are refused, if set.
    pub pubkey_blacklist: Option<Vec<String>>,
    /// Whether clients are challenged to authenticate.
    pub nip42_auth: bool,
    /// Whether direct messages go only to their authenticated sender or
    /// recipient.
    pub nip42_dms: bool,
}

/// Options on accepted events.
#[derive(Debug, Clone, PartialEq)]
pub struct Options {
    /// How far in the future, in seconds, an event may be dated.
    pub reject_future_seconds: Option<u64>,
}

/// Settings of the paid-access pages.
#[derive(Debug, Clone, PartialEq)]
pub struct PayToRelay {
    /// Whether access is paid.
    pub enabled: bool,
    /// Whether new users may sign up.
    pub sign_ups: bool,
    /// Secret that signs the tokens handed to admitted users.
    pub auth_secret: String,
}

/// Settings of the network side.
#[derive(Debug, Clone, PartialEq)]
pub struct Network {
    /// Seconds between keep-alive pings.
    pub ping_interval_seconds: u32,
    /// Name of a trusted header that carries the client's address.
    pub remote_ip_header: Option<String>,
}

/// All settings.
#[derive(Debug, Clone, PartialEq)]
pub struct Settings {
    pub info: Info,
    pub network: Network,
    pub limits: Limits,
    pub authorization: Authorization,
    pub options: Options,
    pub pay_to_relay: PayToRelay,
}

impl Settings {
    /// Settings with every limit and gate switched off.
    pub fn new() -> (s: Settings)
        ensures
            s.info.name is None,
            s.info.description is None,
            s.info.relay_url is None,
            s.info.relay_page is None,
            s.network.ping_interval_seconds == 300,
            s.network.remote_ip_header is None,
            s.limits.max_event_bytes is None,
            s.limits.subscriptions_per_min is None,
            !s.limits.limit_scrapers,
            s.authorization.pubkey_whitelist is None,
            s.authorization.pubkey_blacklist is None,
            !s.authorization.nip42_auth,
            !s.authorization.nip42_dms,
            s.options.reject_future_seconds is None,
            !s.pay_to_relay.enabled,
            !s.pay_to_relay.sign_ups,
            s.pay_to_relay.auth_secret@ == Seq::<char>::empty(),
    {
        Settings {
            info: Info { name: None, description: None, relay_url: None, relay_page: None },
            network: Network { ping_interval_seconds: 300, remote_ip_header: None },
            limits: Limits {
                max_event_bytes: None,
                subscriptions_per_min: None,
                limit_scrapers: false,
            },
            authorization: Authorization {
                pubkey_whitelist: None,
                pubkey_blacklist: None,
                nip42_auth: false,
                nip42_dms: false,
            },
            options: Options { reject_future_seconds: None },
            pay_to_relay: PayToRelay { enabled: false, sign_ups: false, auth_secret: String::new() },
        }
    }
}

} // verus!
