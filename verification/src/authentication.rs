//! Access to the pages of admitted users: proof of key ownership by
//! signature, and the signed tokens that remember it.
use vstd::prelude::*;
use vstd::string::*;
use std::collections::BTreeMap;
use hmac::Mac;
use jwt::{SignWithKey, VerifyWithKey};
use nostr::key::FromPkStr;
use crate::config::Settings;
use crate::crypto::{
    pubkey_parses, schnorr_accepts, schnorr_verify, sha256, sha256_digest, signature_parses,
    signature_wellformed, xonly_key_valid,
};
use crate::text::{
    chars_are, chars_of, lists, opt_string, split, split_chars, str_eq, string_of,
};

verus! {

/// The hex text of the public key that `text` denotes, in hex or in
/// bech32 form, if it denotes one.
pub uninterp spec fn public_key_of(text: Seq<char>) -> Option<Seq<char>>;

/// The token that carries the given claims, each a name and a value,
/// signed with `secret`.
pub uninterp spec fn signed_token(secret: Seq<char>, claims: Seq<(Seq<char>, Seq<char>)>) -> Seq<
    char,
>;

/// The claims of `token`, by ascending name, if `token` is a token signed
/// with `secret` whose claims are texts.
pub uninterp spec fn verified_claims(token: Seq<char>, secret: Seq<char>) -> Option<
    Seq<(Seq<char>, Seq<char>)>,
>;

/// The model of an optional list of claims.
pub open spec fn opt_claims(c: Option<Vec<(String, String)>>) -> Option<Seq<(Seq<char>, Seq<char>)>> {
    match c {
        Some(v) => Some(claims_view(v@)),
        None => None,
    }
}

/// The names and values of a list of claims, in order.
pub open spec fn claims_view(c: Seq<(String, String)>) -> Seq<(Seq<char>, Seq<char>)> {
    Seq::new(c.len(), |i: int| (c[i].0@, c[i].1@))
}

/// Reads a public key from its hex or bech32 form.
///
/// Stands for `nostr::Keys::from_pk_str` followed by the hex text of the
/// key that was read; the contract only names the answer.
#[verifier::external_body]
fn parse_public_key(text: &str) -> (r: Option<String>)
    ensures
        opt_string(r) == public_key_of(text@),
{
    match nostr::Keys::from_pk_str(text) {
        Ok(keys) => Some(keys.public_key().to_string()),
        Err(_) => None,
    }
}

/// Signs a token with the given claims.
///
/// Stands for `jwt::SignWithKey::sign_with_key` on the map made of the
/// claims, with an HMAC-SHA256 key made of the bytes of `secret`, which
/// cannot fail there; the contract only names the answer.
#[verifier::external_body]
fn sign_claims(secret: &str, claims: &Vec<(String, String)>) -> (token: String)
    ensures
        token@ == signed_token(secret@, claims_view(claims@)),
{
    let map: BTreeMap<&str, &str> = claims.iter().map(|c| (c.0.as_str(), c.1.as_str())).collect();
    match hmac::Hmac::<sha2::Sha256>::new_from_slice(secret.as_bytes()) {
        Ok(key) => map.sign_with_key(&key).unwrap_or_default(),
        Err(_) => String::new(),
    }
}

/// Checks the signature of a token and reads its claims.
///
/// Stands for `jwt::VerifyWithKey::verify_with_key` into a map from text
/// to text, with an HMAC-SHA256 key made of the bytes of `secret`; the
/// contract only names the answer.
#[verifier::external_body]
fn verify_claims(token: &str, secret: &str) -> (claims: Option<Vec<(String, String)>>)
    ensures
        opt_claims(claims) == verified_claims(token@, secret@),
{
    let key = hmac::Hmac::<sha2::Sha256>::new_from_slice(secret.as_bytes()).ok()?;
    let verified: Result<BTreeMap<String, String>, jwt::Error> = token.verify_with_key(&key);
    match verified {
        Ok(claims) => Some(claims.into_iter().collect()),
        Err(_) => None,
    }
}

/// Reads the clock and writes the time one day from now.
///
/// Stands for `chrono::Utc::now`, `checked_add_days` and `to_rfc3339`.
/// Nothing is promised of the text: it depends on the time of the call.
#[verifier::external_body]
fn one_day_from_now() -> (expires: String) {
    chrono::Utc::now()
        .checked_add_days(chrono::Days::new(1))
        .map(|t| t.to_rfc3339())
        .unwrap_or_default()
}

/// A public key that was read from text.
#[derive(Debug, Clone, PartialEq)]
pub struct Keys {
    public_key: String,
}

impl View for Keys {
    type V = Seq<char>;

    closed spec fn view(&self) -> Seq<char> {
        self.public_key@
    }
}

impl Keys {
    /// Reads a public key from its hex or bech32 form.
    pub fn from_pk_str(text: &str) -> (r: Option<Keys>)
        ensures
            match r {
                Some(k) => public_key_of(text@) == Some(k@),
                None => public_key_of(text@) is None,
            },
    {
        match parse_public_key(text) {
            Some(public_key) => Some(Keys { public_key }),
            None => None,
        }
    }

    /// The hex text of the key.
    pub fn public_key(&self) -> (r: &str)
        ensures
            r@ == self@,
    {
        self.public_key.as_str()
    }
}

/// The text a user signs to prove that a key is theirs.
pub open spec fn permission_text(pubkey: Seq<char>) -> Seq<char> {
    "nostr:permission:"@ + pubkey + ":allowed"@
}

/// Writes the text a user signs to prove that a key is theirs.
pub fn permission_message(key: &Keys) -> (r: String)
    ensures
        r@ == permission_text(key@),
{
    let mut r = String::new();
    r.append("nostr:permission:");
    r.append(key.public_key());
    r.append(":allowed");
    r
}

/// Whether `signature` proves ownership of `pubkey`: it has the form of a
/// signature, the key is one, and the signature is one of the hash of the
/// permission text under the key.
pub open spec fn proves_ownership(pubkey: Seq<char>, signature: Seq<char>) -> bool {
    &&& signature_wellformed(signature)
    &&& xonly_key_valid(pubkey)
    &&& schnorr_accepts(
        signature,
        sha256(vstd::utf8::encode_utf8(permission_text(pubkey))),
        pubkey,
    )
}

/// Checks that `signature` proves ownership of `key`.
pub fn authenticate(key: &Keys, signature: &str) -> (r: bool)
    ensures
        r == proves_ownership(key@, signature@),
{
    if !signature_parses(signature) {
        return false;
    }
    if !pubkey_parses(key.public_key()) {
        return false;
    }
    let message = permission_message(key);
    let digest = sha256_digest(message.as_str().as_bytes());
    schnorr_verify(signature, digest.as_slice(), key.public_key())
}

/// The claims of the token for `key` that expires at `expires`: the
/// subject, then the expiry.
pub open spec fn token_claims(key: Seq<char>, expires: Seq<char>) -> Seq<(Seq<char>, Seq<char>)> {
    seq![("sub"@, key), ("exp"@, expires)]
}

/// Lists the claims of the token for `key` that expires at `expires`.
pub fn make_claims(key: &Keys, expires: &str) -> (claims: Vec<(String, String)>)
    ensures
        claims_view(claims@) == token_claims(key@, expires@),
{
    let mut claims: Vec<(String, String)> = Vec::new();
    claims.push(("sub".to_owned(), key.public_key().to_owned()));
    claims.push(("exp".to_owned(), expires.to_owned()));
    claims
}

/// Makes the token that remembers until `expires` that the holder of
/// `key` has proved ownership. `expires` is a time as text.
pub fn auth_token_until(key: &Keys, settings: &Settings, expires: &str) -> (token: String)
    ensures
        token@ == signed_token(settings.pay_to_relay.auth_secret@, token_claims(key@, expires@)),
{
    let claims = make_claims(key, expires);
    sign_claims(settings.pay_to_relay.auth_secret.as_str(), &claims)
}

/// Makes the token that remembers for one day that the holder of `key`
/// has proved ownership.
pub fn generate_auth_token(key: &Keys, settings: &Settings) -> (token: String)
    ensures
        exists|expires: Seq<char>|
            token@ == signed_token(
                settings.pay_to_relay.auth_secret@,
                #[trigger] token_claims(key@, expires),
            ),
{
    let expires = one_day_from_now();
    let token = auth_token_until(key, settings, expires.as_str());
    token
}

/// The cookie value of the first cookie that consists of the name `token`,
/// one `=`, and a value without `=`.
pub open spec fn token_of(cookies: Seq<Seq<char>>) -> Option<Seq<char>>
    decreases cookies.len(),
{
    if cookies.len() == 0 {
        None
    } else {
        let parts = split(cookies.first(), '=');
        if parts.len() == 2 && parts[0] == "token"@ {
            Some(parts[1])
        } else {
            token_of(cookies.drop_first())
        }
    }
}

/// The value of the `token` cookie in a cookie header: the header is cut
/// at each `;`, and names are compared as they stand, spaces included.
pub open spec fn token_value(header: Seq<char>) -> Option<Seq<char>> {
    token_of(split(header, ';'))
}

/// Finds the value of the `token` cookie in the text of a cookie header.
pub fn get_token_value(header: &str) -> (r: Option<String>)
    ensures
        opt_string(r) == token_value(header@),
{
    let chars = chars_of(header);
    let cookies = split_chars(&chars, ';');
    let mut i: usize = 0;
    assert(lists(cookies@).skip(0) =~= lists(cookies@));
    while i < cookies.len()
        invariant
            i <= cookies.len(),
            lists(cookies@) == split(header@, ';'),
            token_value(header@) == token_of(lists(cookies@).skip(i as int)),
        decreases cookies.len() - i,
    {
        let ghost rest = lists(cookies@).skip(i as int);
        assert(rest.drop_first() =~= lists(cookies@).skip(i + 1));
        let parts = split_chars(&cookies[i], '=');
        if parts.len() == 2 && chars_are(&parts[0], "token") {
            return Some(string_of(&parts[1]));
        }
        i += 1;
    }
    None
}

/// The value of the first claim named `name`.
pub open spec fn claim(claims: Seq<(Seq<char>, Seq<char>)>, name: Seq<char>) -> Option<Seq<char>>
    decreases claims.len(),
{
    if claims.len() == 0 {
        None
    } else if claims.first().0 == name {
        Some(claims.first().1)
    } else {
        claim(claims.drop_first(), name)
    }
}

/// Whether the claims name `key` as their subject.
pub fn claims_name(claims: &Vec<(String, String)>, key: &Keys) -> (r: bool)
    ensures
        r == (claim(claims_view(claims@), "sub"@) == Some(key@)),
{
    let mut i: usize = 0;
    assert(claims_view(claims@).skip(0) =~= claims_view(claims@));
    while i < claims.len()
        invariant
            i <= claims.len(),
            claim(claims_view(claims@), "sub"@) == claim(
                claims_view(claims@).skip(i as int),
                "sub"@,
            ),
        decreases claims.len() - i,
    {
        let ghost rest = claims_view(claims@).skip(i as int);
        assert(rest.drop_first() =~= claims_view(claims@).skip(i + 1));
        if str_eq(claims[i].0.as_str(), "sub") {
            return str_eq(claims[i].1.as_str(), key.public_key());
        }
        i += 1;
    }
    false
}

/// Whether `token` is validly signed with the relay's secret and names
/// `key` as its subject.
pub open spec fn token_valid(token: Seq<char>, key: Seq<char>, secret: Seq<char>) -> bool {
    match verified_claims(token, secret) {
        Some(claims) => claim(claims, "sub"@) == Some(key),
        None => false,
    }
}

/// Checks that `token` is validly signed with the relay's secret and
/// names `key` as its subject.
pub fn validate_auth_token(token: &str, key: &Keys, settings: &Settings) -> (r: bool)
    ensures
        r == token_valid(token@, key@, settings.pay_to_relay.auth_secret@),
{
    match verify_claims(token, settings.pay_to_relay.auth_secret.as_str()) {
        Some(claims) => claims_name(&claims, key),
        None => false,
    }
}

} // verus!
