//! Hashing and signature checks, done by the `bitcoin_hashes` and
//! `secp256k1` crates.
use vstd::prelude::*;
use vstd::string::*;
use std::str::FromStr;
use crate::json::hex_lower;
use crate::text::{all_hex, push_char};

verus! {

/// The SHA-256 digest of a byte string.
pub uninterp spec fn sha256(data: Seq<u8>) -> Seq<u8>;

/// Whether `pubkey`, as text, denotes an x-only secp256k1 public key.
pub uninterp spec fn xonly_key_valid(pubkey: Seq<char>) -> bool;

/// Whether `sig` is a BIP-340 Schnorr signature of the 32-byte message
/// `digest` under the x-only public key `pubkey`, both given as hex text.
pub uninterp spec fn schnorr_accepts(sig: Seq<char>, digest: Seq<u8>, pubkey: Seq<char>) -> bool;

/// Whether `sig` has the form of a Schnorr signature: 128 hexadecimal
/// digits.
pub open spec fn signature_wellformed(sig: Seq<char>) -> bool {
    sig.len() == 128 && all_hex(sig)
}

/// Computes the SHA-256 digest of `data`.
///
/// Stands for `bitcoin_hashes::sha256::Hash::hash`: the result is the
/// digest of `data`, which is 32 bytes long.
#[verifier::external_body]
pub(crate) fn sha256_digest(data: &[u8]) -> (digest: Vec<u8>)
    ensures
        digest@ == sha256(data@),
        digest@.len() == 32,
{
    <bitcoin_hashes::sha256::Hash as bitcoin_hashes::Hash>::hash(data).as_ref().to_vec()
}

/// Whether `sig` parses as a Schnorr signature.
///
/// Stands for `secp256k1::schnorr::Signature::from_str`, which succeeds
/// exactly on 128 hexadecimal digits of either case.
#[verifier::external_body]
pub(crate) fn signature_parses(sig: &str) -> (ok: bool)
    ensures
        ok == signature_wellformed(sig@),
{
    secp256k1::schnorr::Signature::from_str(sig).is_ok()
}

/// Whether `pubkey` parses as an x-only public key.
///
/// Stands for `secp256k1::XOnlyPublicKey::from_str`; the contract only
/// names the answer.
#[verifier::external_body]
pub(crate) fn pubkey_parses(pubkey: &str) -> (ok: bool)
    ensures
        ok == xonly_key_valid(pubkey@),
{
    secp256k1::XOnlyPublicKey::from_str(pubkey).is_ok()
}

/// Checks a Schnorr signature over a 32-byte digest.
///
/// Stands for `secp256k1::Secp256k1::verify_schnorr`, applied to the parsed
/// signature, message and key; the contract only names the answer. The
/// preconditions are those under which the three values parse.
#[verifier::external_body]
pub(crate) fn schnorr_verify(sig: &str, digest: &[u8], pubkey: &str) -> (ok: bool)
    requires
        signature_wellformed(sig@),
        digest@.len() == 32,
        xonly_key_valid(pubkey@),
    ensures
        ok == schnorr_accepts(sig@, digest@, pubkey@),
{
    let parsed = (
        secp256k1::schnorr::Signature::from_str(sig),
        secp256k1::Message::from_slice(digest),
        secp256k1::XOnlyPublicKey::from_str(pubkey),
    );
    match parsed {
        (Ok(s), Ok(m), Ok(k)) => secp256k1::Secp256k1::verification_only().verify_schnorr(&s, &m, &k).is_ok(),
        _ => false,
    }
}

/// The lower-case hexadecimal text of a byte string, two digits per byte.
pub open spec fn hex_text(data: Seq<u8>) -> Seq<char>
    decreases data.len(),
{
    if data.len() == 0 {
        Seq::empty()
    } else {
        hex_text(data.drop_last()).push(hex_lower((data.last() / 16) as nat)).push(
            hex_lower((data.last() % 16) as nat),
        )
    }
}

fn hex_digit_lower(d: u8) -> (c: char)
    requires
        d < 16,
    ensures
        c == hex_lower(d as nat),
{
    if d == 0 {
        '0'
    } else if d == 1 {
        '1'
    } else if d == 2 {
        '2'
    } else if d == 3 {
        '3'
    } else if d == 4 {
        '4'
    } else if d == 5 {
        '5'
    } else if d == 6 {
        '6'
    } else if d == 7 {
        '7'
    } else if d == 8 {
        '8'
    } else if d == 9 {
        '9'
    } else if d == 10 {
        'a'
    } else if d == 11 {
        'b'
    } else if d == 12 {
        'c'
    } else if d == 13 {
        'd'
    } else if d == 14 {
        'e'
    } else {
        'f'
    }
}

/// Writes `data` as lower-case hexadecimal text.
pub fn to_hex(data: &Vec<u8>) -> (r: String)
    ensures
        r@ == hex_text(data@),
{
    let mut r = String::new();
    let mut i: usize = 0;
    while i < data.len()
        invariant
            i <= data.len(),
            r@ == hex_text(data@.take(i as int)),
        decreases data.len() - i,
    {
        let b = data[i];
        assert(data@.take(i + 1).drop_last() =~= data@.take(i as int));
        push_char(&mut r, hex_digit_lower(b / 16));
        push_char(&mut r, hex_digit_lower(b % 16));
        i += 1;
    }
    assert(data@.take(i as int) =~= data@);
    r
}

} // verus!
