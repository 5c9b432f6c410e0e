//! Errors of the relay core.
use vstd::prelude::*;

verus! {

/// What can go wrong while a connection is served.
#[derive(Debug, Clone, Copy, PartialEq, Eq, Structural)]
pub enum Error {
    /// A frame is not a valid command.
    ProtoParseError,
    /// The connection failed or was closed.
    ConnError,
    /// A submitted event is larger than allowed; holds the size of the frame.
    EventMaxLengthError(usize),
    /// The identifier of an event is not the hash of its content.
    EventInvalidId,
    /// The signature of an event does not verify.
    EventInvalidSignature,
    /// The public key of an event is malformed.
    EventMalformedPubkey,
    /// The name of a subscription is too long.
    SubIdMaxLengthError,
    /// The connection already holds as many subscriptions as allowed.
    SubMaxExceededError,
    /// The command word of a frame is not known.
    CommandUnknownError,
    /// No challenge is outstanding for this connection.
    AuthNoChallenge,
    /// The authentication event does not answer the challenge that was sent.
    AuthWrongChallenge,
    /// The authentication event is not validly signed.
    AuthBadSignature,
}

impl Error {
    /// The text shown to clients and in logs for this error.
    pub open spec fn message_text(self) -> Seq<char> {
        match self {
            Error::ProtoParseError => "Protocol parse error"@,
            Error::ConnError => "Connection error"@,
            Error::EventMaxLengthError(_) => "Event too large"@,
            Error::EventInvalidId => "Event invalid id"@,
            Error::EventInvalidSignature => "Event invalid signature"@,
            Error::EventMalformedPubkey => "Event malformed pubkey"@,
            Error::SubIdMaxLengthError => "Subscription identifier max length exceeded"@,
            Error::SubMaxExceededError => "Maximum concurrent subscription count reached"@,
            Error::CommandUnknownError => "Command unknown"@,
            Error::AuthNoChallenge => "No authentication challenge is outstanding"@,
            Error::AuthWrongChallenge => "Authentication challenge does not match"@,
            Error::AuthBadSignature => "Authentication event is not validly signed"@,
        }
    }

    /// The text shown to clients and in logs for this error.
    pub fn message(&self) -> (r: String)
        ensures
            r@ == self.message_text(),
    {
        match self {
            Error::ProtoParseError => "Protocol parse error".to_owned(),
            Error::ConnError => "Connection error".to_owned(),
            Error::EventMaxLengthError(_) => "Event too large".to_owned(),
            Error::EventInvalidId => "Event invalid id".to_owned(),
            Error::EventInvalidSignature => "Event invalid signature".to_owned(),
            Error::EventMalformedPubkey => "Event malformed pubkey".to_owned(),
            Error::SubIdMaxLengthError => "Subscription identifier max length exceeded".to_owned(),
            Error::SubMaxExceededError => "Maximum concurrent subscription count reached".to_owned(),
            Error::CommandUnknownError => "Command unknown".to_owned(),
            Error::AuthNoChallenge => "No authentication challenge is outstanding".to_owned(),
            Error::AuthWrongChallenge => "Authentication challenge does not match".to_owned(),
            Error::AuthBadSignature => "Authentication event is not validly signed".to_owned(),
        }
    }
}

} // verus!
