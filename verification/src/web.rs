//! What the relay answers to a plain HTTP request, and whether a request
//! becomes a client connection.
use vstd::prelude::*;
use vstd::string::*;
use crate::authentication::{
    authenticate, get_token_value, proves_ownership, public_key_of, token_valid, token_value,
    validate_auth_token, Keys,
};
use crate::config::Settings;
use crate::conn::{MAX_SUBSCRIPTIONS, MAX_SUBSCRIPTION_ID_LEN};
use crate::json::{json_string, quote};
use crate::server::{get_pubkey, query_pubkey};
use crate::text::{contains_text, has_text, opt_string, push_decimal, decimal, str_eq};

verus! {

/// What the relay reads of an HTTP request.
#[derive(Debug, Clone, PartialEq)]
pub struct WebRequest {
    /// The path of the request.
    pub path: String,
    /// Whether the request asks for an upgrade of the connection.
    pub upgrade: bool,
    /// Whether the method is POST.
    pub post: bool,
    /// The text of the `Accept` header, if there is one.
    pub accept: Option<String>,
    /// The query part of the address; empty if there is none.
    pub query: String,
    /// The `pubkey` field of a submitted form.
    pub form_pubkey: Option<String>,
    /// The `signature` field of a submitted form.
    pub form_signature: Option<String>,
}

/// A page that is served for one key, after the account of the key was
/// looked up.
#[derive(Debug, Clone, Copy, PartialEq, Eq, Structural)]
pub enum KeyedPage {
    Invoice,
    Account,
    Summary,
    Download,
}

/// What to do with an HTTP request.
#[derive(Debug, PartialEq)]
pub enum WebAction {
    /// Answer the handshake and serve the connection as a client.
    Upgrade,
    /// Send the document that describes the relay.
    RelayInfo,
    /// Redirect to this address.
    Redirect(String),
    /// Send the page in this file; the landing text if it cannot be read.
    RelayPage(String),
    /// Send this text with this status.
    Text { status: u16, body: String },
    /// Send the metrics.
    Metrics,
    /// Take the call of the payment processor.
    PaymentCallback,
    /// Send the terms page.
    Terms,
    /// Send the sign-up page.
    Join,
    /// Look up the account of `key` and serve `page` for it.
    Keyed { page: KeyedPage, key: Keys },
    /// The holder of this key has proved ownership: hand out a token and
    /// show the statistics.
    Authorized(Keys),
    /// Serve a static file.
    Static,
}

/// Mathematical model of a [`WebAction`].
#[verifier::ext_equal]
pub enum WebActionView {
    Upgrade,
    RelayInfo,
    Redirect(Seq<char>),
    RelayPage(Seq<char>),
    Text { status: u16, body: Seq<char> },
    Metrics,
    PaymentCallback,
    Terms,
    Join,
    Keyed { page: KeyedPage, key: Seq<char> },
    Authorized(Seq<char>),
    Static,
}

impl View for WebAction {
    type V = WebActionView;

    open spec fn view(&self) -> WebActionView {
        match self {
            WebAction::Upgrade => WebActionView::Upgrade,
            WebAction::RelayInfo => WebActionView::RelayInfo,
            WebAction::Redirect(to) => WebActionView::Redirect(to@),
            WebAction::RelayPage(path) => WebActionView::RelayPage(path@),
            WebAction::Text { status, body } => WebActionView::Text { status: *status, body: body@ },
            WebAction::Metrics => WebActionView::Metrics,
            WebAction::PaymentCallback => WebActionView::PaymentCallback,
            WebAction::Terms => WebActionView::Terms,
            WebAction::Join => WebActionView::Join,
            WebAction::Keyed { page, key } => WebActionView::Keyed { page: *page, key: key@ },
            WebAction::Authorized(key) => WebActionView::Authorized(key@),
            WebAction::Static => WebActionView::Static,
        }
    }
}

/// The answer with a status and a text.
pub open spec fn text(status: u16, body: Seq<char>) -> WebActionView {
    WebActionView::Text { status, body }
}

/// What is served for the key that `pubkey` denotes: the page, a
/// redirection to the sign-up page where no key is given, or a refusal
/// where what is given denotes no key.
pub open spec fn keyed(page: KeyedPage, pubkey: Option<Seq<char>>) -> WebActionView {
    match pubkey {
        None => WebActionView::Redirect("/join"@),
        Some(p) => match public_key_of(p) {
            Some(key) => WebActionView::Keyed { page, key },
            None => text(401, "Looks like your key is invalid"@),
        },
    }
}

/// The answer to a request at the root that asks for no upgrade: the
/// relay's description for a client that accepts it, a redirection to the
/// sign-up page where access is paid, the configured page, or the landing
/// text.
pub open spec fn root_answer(accept: Option<Seq<char>>, settings: &Settings) -> WebActionView {
    if accept matches Some(a) && contains_text(a, "application/nostr+json"@) {
        WebActionView::RelayInfo
    } else if settings.pay_to_relay.enabled {
        WebActionView::Redirect("/join"@)
    } else {
        match opt_string(settings.info.relay_page) {
            Some(page) => WebActionView::RelayPage(page),
            None => text(200, "Please use a Nostr client to connect."@),
        }
    }
}

/// The answer to a request to prove the ownership of a key.
pub open spec fn authorize_answer(
    post: bool,
    pubkey: Option<Seq<char>>,
    signature: Option<Seq<char>>,
    settings: &Settings,
) -> WebActionView {
    if !post {
        text(405, "Invalid HTTP method"@)
    } else if !settings.pay_to_relay.enabled {
        text(401, "This relay is not paid"@)
    } else {
        match (pubkey, signature) {
            (Some(p), Some(s)) => match public_key_of(p) {
                Some(key) => if proves_ownership(key, s) {
                    WebActionView::Authorized(key)
                } else {
                    text(400, "Invalid signature"@)
                },
                None => text(400, "Missing required values"@),
            },
            _ => text(400, "Missing required values"@),
        }
    }
}

/// What is done with a request.
pub open spec fn route(req: &WebRequest, settings: &Settings) -> WebActionView {
    let path = req.path@;
    if path == "/"@ && req.upgrade {
        WebActionView::Upgrade
    } else if req.upgrade {
        WebActionView::Static
    } else if path == "/"@ {
        root_answer(opt_string(req.accept), settings)
    } else if path == "/metrics"@ {
        WebActionView::Metrics
    } else if path == "/lnbits"@ {
        WebActionView::PaymentCallback
    } else if path == "/terms"@ {
        WebActionView::Terms
    } else if path == "/join"@ {
        if !settings.pay_to_relay.sign_ups {
            text(401, "Sorry, joining is not allowed at the moment"@)
        } else {
            WebActionView::Join
        }
    } else if path == "/invoice"@ {
        if !settings.pay_to_relay.sign_ups {
            text(401, "Sorry, joining is not allowed at the moment"@)
        } else {
            keyed(KeyedPage::Invoice, query_pubkey(req.query@))
        }
    } else if path == "/authorize"@ {
        authorize_answer(
            req.post,
            opt_string(req.form_pubkey),
            opt_string(req.form_signature),
            settings,
        )
    } else if path == "/account"@ {
        if !settings.pay_to_relay.enabled {
            text(401, "This relay is not paid"@)
        } else {
            keyed(KeyedPage::Account, query_pubkey(req.query@))
        }
    } else if path == "/summary"@ {
        if !settings.pay_to_relay.enabled {
            text(401, "This relay is not paid"@)
        } else {
            keyed(KeyedPage::Summary, query_pubkey(req.query@))
        }
    } else if path == "/download"@ {
        if !req.post {
            text(405, "Invalid HTTP method"@)
        } else if !settings.pay_to_relay.enabled {
            text(401, "This relay is not paid"@)
        } else {
            keyed(KeyedPage::Download, opt_string(req.form_pubkey))
        }
    } else {
        WebActionView::Static
    }
}

/// Whether the answer to a request depends on the form it submits: only
/// a request that posts to the page that proves ownership or to the
/// download page reads its form.
pub open spec fn reads_form(req: &WebRequest) -> bool {
    req.post && !req.upgrade && (req.path@ == "/authorize"@ || req.path@ == "/download"@)
}

/// Says whether the form of a request has to be read before the request
/// is routed.
pub fn needs_form(req: &WebRequest) -> (r: bool)
    ensures
        r == reads_form(req),
{
    req.post && !req.upgrade && (str_eq(req.path.as_str(), "/authorize") || str_eq(
        req.path.as_str(),
        "/download",
    ))
}

/// A request whose form is not read is routed the same way whatever its
/// form holds.
pub proof fn unread_form_changes_nothing(a: &WebRequest, b: &WebRequest, settings: &Settings)
    requires
        !reads_form(a),
        a.path == b.path,
        a.upgrade == b.upgrade,
        a.post == b.post,
        a.accept == b.accept,
        a.query == b.query,
    ensures
        route(a, settings) == route(b, settings),
{
}

/// A text as a JSON string, or `null` where there is none.
pub open spec fn json_or_null(text: Option<Seq<char>>) -> Seq<char> {
    match text {
        Some(t) => json_string(t),
        None => "null"@,
    }
}

/// The document with which the relay describes itself: its name and
/// description, the protocol extensions it supports (authentication is
/// listed where clients are challenged), and its limits on subscriptions
/// and whether access is paid.
pub open spec fn relay_info_text(settings: &Settings) -> Seq<char> {
    "{\"name\":"@ + json_or_null(opt_string(settings.info.name)) + ",\"description\":"@
        + json_or_null(opt_string(settings.info.description)) + ",\"supported_nips\":"@ + (
    if settings.authorization.nip42_auth {
        "[1,11,15,42]"@
    } else {
        "[1,11,15]"@
    }) + ",\"limitation\":{\"max_subscriptions\":"@ + decimal(MAX_SUBSCRIPTIONS as nat)
        + ",\"max_subid_length\":"@ + decimal(MAX_SUBSCRIPTION_ID_LEN as nat)
        + ",\"payment_required\":"@ + (if settings.pay_to_relay.enabled {
        "true"@
    } else {
        "false"@
    }) + "}}"@
}

fn push_json_or_null(out: &mut String, text: &Option<String>)
    ensures
        final(out)@ == old(out)@ + json_or_null(opt_string(*text)),
{
    match text {
        Some(t) => out.append(quote(t.as_str()).as_str()),
        None => out.append("null"),
    }
}

/// Writes the document with which the relay describes itself.
pub fn relay_info(settings: &Settings) -> (r: String)
    ensures
        r@ == relay_info_text(settings),
{
    let mut r = String::new();
    r.append("{\"name\":");
    push_json_or_null(&mut r, &settings.info.name);
    r.append(",\"description\":");
    push_json_or_null(&mut r, &settings.info.description);
    r.append(",\"supported_nips\":");
    if settings.authorization.nip42_auth {
        r.append("[1,11,15,42]");
    } else {
        r.append("[1,11,15]");
    }
    r.append(",\"limitation\":{\"max_subscriptions\":");
    push_decimal(&mut r, MAX_SUBSCRIPTIONS as u64);
    r.append(",\"max_subid_length\":");
    push_decimal(&mut r, MAX_SUBSCRIPTION_ID_LEN as u64);
    r.append(",\"payment_required\":");
    if settings.pay_to_relay.enabled {
        r.append("true");
    } else {
        r.append("false");
    }
    r.append("}}");
    r
}

/// Answers with a status and a text.
pub fn status_and_text(status: u16, msg: &str) -> (a: WebAction)
    ensures
        a@ == text(status, msg@),
{
    WebAction::Text { status, body: msg.to_owned() }
}

/// Redirects to `location`.
pub fn redirect(location: &str) -> (a: WebAction)
    ensures
        a@ == WebActionView::Redirect(location@),
{
    WebAction::Redirect(location.to_owned())
}

/// Serves `page` for the key that was read, or refuses where none was.
pub fn serve_key(page: KeyedPage, key: Option<Keys>) -> (a: WebAction)
    ensures
        a@ == (match key {
            Some(k) => WebActionView::Keyed { page, key: k@ },
            None => text(401, "Looks like your key is invalid"@),
        }),
{
    match key {
        Some(k) => WebAction::Keyed { page, key: k },
        None => status_and_text(401, "Looks like your key is invalid"),
    }
}

fn serve_keyed(page: KeyedPage, pubkey: Option<String>) -> (a: WebAction)
    ensures
        a@ == keyed(page, opt_string(pubkey)),
{
    match pubkey {
        None => redirect("/join"),
        Some(p) => serve_key(page, Keys::from_pk_str(p.as_str())),
    }
}

fn clone_opt(s: &Option<String>) -> (r: Option<String>)
    ensures
        opt_string(r) == opt_string(*s),
{
    match s {
        Some(t) => Some(t.clone()),
        None => None,
    }
}

fn answer_root(accept: &Option<String>, settings: &Settings) -> (a: WebAction)
    ensures
        a@ == root_answer(opt_string(*accept), settings),
{
    if let Some(media_types) = accept {
        if has_text(media_types.as_str(), "application/nostr+json") {
            return WebAction::RelayInfo;
        }
    }
    if settings.pay_to_relay.enabled {
        return redirect("/join");
    }
    match &settings.info.relay_page {
        Some(page) => WebAction::RelayPage(page.clone()),
        None => status_and_text(200, "Please use a Nostr client to connect."),
    }
}

fn answer_authorize(req: &WebRequest, settings: &Settings) -> (a: WebAction)
    ensures
        a@ == authorize_answer(
            req.post,
            opt_string(req.form_pubkey),
            opt_string(req.form_signature),
            settings,
        ),
{
    if !req.post {
        return status_and_text(405, "Invalid HTTP method");
    }
    if !settings.pay_to_relay.enabled {
        return status_and_text(401, "This relay is not paid");
    }
    if let Some(pub_key) = &req.form_pubkey {
        if let Some(signature) = &req.form_signature {
            if let Some(key) = Keys::from_pk_str(pub_key.as_str()) {
                if authenticate(&key, signature.as_str()) {
                    return WebAction::Authorized(key);
                }
                return status_and_text(400, "Invalid signature");
            }
        }
    }
    status_and_text(400, "Missing required values")
}

/// Decides what to do with an HTTP request: upgrade it to a client
/// connection, answer it at once, or serve a page that needs more work.
pub fn handle_web_request(req: &WebRequest, settings: &Settings) -> (a: WebAction)
    ensures
        a@ == route(req, settings),
{
    let path = req.path.as_str();
    if str_eq(path, "/") && req.upgrade {
        WebAction::Upgrade
    } else if req.upgrade {
        WebAction::Static
    } else if str_eq(path, "/") {
        answer_root(&req.accept, settings)
    } else if str_eq(path, "/metrics") {
        WebAction::Metrics
    } else if str_eq(path, "/lnbits") {
        WebAction::PaymentCallback
    } else if str_eq(path, "/terms") {
        WebAction::Terms
    } else if str_eq(path, "/join") {
        if !settings.pay_to_relay.sign_ups {
            status_and_text(401, "Sorry, joining is not allowed at the moment")
        } else {
            WebAction::Join
        }
    } else if str_eq(path, "/invoice") {
        if !settings.pay_to_relay.sign_ups {
            status_and_text(401, "Sorry, joining is not allowed at the moment")
        } else {
            serve_keyed(KeyedPage::Invoice, get_pubkey(req.query.as_str()))
        }
    } else if str_eq(path, "/authorize") {
        answer_authorize(req, settings)
    } else if str_eq(path, "/account") {
        if !settings.pay_to_relay.enabled {
            status_and_text(401, "This relay is not paid")
        } else {
            serve_keyed(KeyedPage::Account, get_pubkey(req.query.as_str()))
        }
    } else if str_eq(path, "/summary") {
        if !settings.pay_to_relay.enabled {
            status_and_text(401, "This relay is not paid")
        } else {
            serve_keyed(KeyedPage::Summary, get_pubkey(req.query.as_str()))
        }
    } else if str_eq(path, "/download") {
        if !req.post {
            status_and_text(405, "Invalid HTTP method")
        } else if !settings.pay_to_relay.enabled {
            status_and_text(401, "This relay is not paid")
        } else {
            serve_keyed(KeyedPage::Download, clone_opt(&req.form_pubkey))
        }
    } else {
        WebAction::Static
    }
}

/// How an account stands: admitted or not, or unknown where the lookup
/// failed.
#[derive(Debug, Clone, Copy, PartialEq, Eq, Structural)]
pub enum Admission {
    Admitted,
    NotAdmitted,
    Unknown,
}

/// What the account page shows as the status of an account.
pub open spec fn status_word(admission: Admission, has_token: bool) -> Seq<char> {
    match admission {
        Admission::Admitted => if has_token {
            "authorized"@
        } else {
            "admitted"@
        },
        Admission::NotAdmitted => "denied"@,
        Admission::Unknown => "unknown"@,
    }
}

/// Says what the account page shows as the status of an account.
/// `has_token` tells whether the request came with a valid token for the
/// key.
pub fn account_status(admission: Admission, has_token: bool) -> (r: &'static str)
    ensures
        r@ == status_word(admission, has_token),
{
    match admission {
        Admission::Admitted => if has_token {
            "authorized"
        } else {
            "admitted"
        },
        Admission::NotAdmitted => "denied",
        Admission::Unknown => "unknown",
    }
}

/// Whether the cookie header carries a valid token for `key`.
pub fn has_valid_token(cookie: Option<&str>, key: &Keys, settings: &Settings) -> (r: bool)
    ensures
        r == (match cookie {
            Some(c) => match token_value(c@) {
                Some(t) => token_valid(t, key@, settings.pay_to_relay.auth_secret@),
                None => false,
            },
            None => false,
        }),
{
    match cookie {
        Some(c) => match get_token_value(c) {
            Some(token) => validate_auth_token(token.as_str(), key, settings),
            None => false,
        },
        None => false,
    }
}

/// Whether a member page is shown, or what is answered instead: only
/// admitted accounts with a valid token see statistics and downloads.
pub open spec fn member_answer(page: KeyedPage, admission: Admission, has_token: bool) -> Option<
    WebActionView,
> {
    match admission {
        Admission::NotAdmitted => Some(
            text(
                401,
                if page == KeyedPage::Download {
                    "Download events is for registered members only"@
                } else {
                    "Statistics are for registered members only"@
                },
            ),
        ),
        Admission::Unknown => Some(text(500, "Unable to get registration"@)),
        Admission::Admitted => if has_token {
            None
        } else {
            Some(
                text(
                    401,
                    if page == KeyedPage::Download {
                        "Not logged in."@
                    } else {
                        "You are not authorized to perform this operation"@
                    },
                ),
            )
        },
    }
}

/// Decides whether the statistics or the download of an account are
/// served: returns the answer that refuses them, or nothing where they
/// are served.
pub fn member_gate(page: KeyedPage, admission: Admission, has_token: bool) -> (r: Option<WebAction>)
    ensures
        match r {
            Some(a) => member_answer(page, admission, has_token) == Some(a@),
            None => member_answer(page, admission, has_token) is None,
        },
{
    let download = match page {
        KeyedPage::Download => true,
        _ => false,
    };
    match admission {
        Admission::NotAdmitted => Some(
            status_and_text(
                401,
                if download {
                    "Download events is for registered members only"
                } else {
                    "Statistics are for registered members only"
                },
            ),
        ),
        Admission::Unknown => Some(status_and_text(500, "Unable to get registration")),
        Admission::Admitted => if has_token {
            None
        } else {
            Some(
                status_and_text(
                    401,
                    if download {
                        "Not logged in."
                    } else {
                        "You are not authorized to perform this operation"
                    },
                ),
            )
        },
    }
}

/// What follows a request for an invoice.
#[derive(Debug, PartialEq)]
pub enum InvoiceStep {
    /// The account is admitted: redirect to its page.
    Redirect(String),
    /// Ask the payment task to check the account of this key.
    CheckAccount(String),
    /// Ask the payment task to open an account for this key.
    NewAccount(String),
}

/// Decides what follows a request for an invoice for `pubkey`.
pub fn invoice_step(admission: Admission, pubkey: &str) -> (r: InvoiceStep)
    ensures
        match admission {
            Admission::Admitted => r matches InvoiceStep::Redirect(to) && to@
                == "/account?pubkey="@ + pubkey@,
            Admission::NotAdmitted => r matches InvoiceStep::CheckAccount(k) && k@ == pubkey@,
            Admission::Unknown => r matches InvoiceStep::NewAccount(k) && k@ == pubkey@,
        },
{
    match admission {
        Admission::Admitted => {
            let mut to = String::new();
            to.append("/account?pubkey=");
            to.append(pubkey);
            InvoiceStep::Redirect(to)
        },
        Admission::NotAdmitted => InvoiceStep::CheckAccount(pubkey.to_owned()),
        Admission::Unknown => InvoiceStep::NewAccount(pubkey.to_owned()),
    }
}

/// The address of the client: what the trusted header says, or else the
/// address of the socket.
pub fn client_ip(header_ip: Option<String>, socket_ip: String) -> (r: String)
    ensures
        r@ == (match header_ip {
            Some(ip) => ip@,
            None => socket_ip@,
        }),
{
    match header_ip {
        Some(ip) => ip,
        None => socket_ip,
    }
}

/// The address to listen on: host, colon, port.
pub fn listen_address(host: &str, port: u16) -> (r: String)
    ensures
        r@ == host@ + ":"@ + decimal(port as nat),
{
    let mut r = String::new();
    r.append(host);
    r.append(":");
    push_decimal(&mut r, port as u64);
    r
}

} // verus!
