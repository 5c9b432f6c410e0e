//! The request to close a subscription.
use vstd::prelude::*;
use crate::error::Error;
use crate::text::str_eq;

verus! {

/// A close command as it arrives: the command word and the name of the
/// subscription.
#[derive(Debug, Clone, PartialEq)]
pub struct CloseCmd {
    /// The command word; `CLOSE` for a well-formed command.
    pub cmd: String,
    /// The name of the subscription.
    pub id: String,
}

/// A request to close the subscription `id`.
#[derive(Debug, Clone, PartialEq)]
pub struct Close {
    /// The name of the subscription.
    pub id: String,
}

impl CloseCmd {
    /// Whether the command word is `CLOSE`.
    pub open spec fn is_close(self) -> bool {
        self.cmd@ == "CLOSE"@
    }

    /// Turns the command into a request, if its command word is `CLOSE`.
    pub fn into_close(self) -> (r: Result<Close, Error>)
        ensures
            match r {
                Ok(c) => self.is_close() && c.id@ == self.id@,
                Err(e) => !self.is_close() && e == Error::CommandUnknownError,
            },
    {
        if str_eq(self.cmd.as_str(), "CLOSE") {
            Ok(Close { id: self.id })
        } else {
            Err(Error::CommandUnknownError)
        }
    }
}

} // verus!
