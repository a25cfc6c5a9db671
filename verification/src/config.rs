//! Settings read at start-up.

use vstd::prelude::*;

verus! {

/// Credentials of the TURN vendor. The ICE broker is on only when both are set.
#[derive(Debug, PartialEq, Eq)]
pub struct Config {
    pub twilio_account_sid: Option<String>,
    pub twilio_auth_token: Option<String>,
}

impl Clone for Config {
    fn clone(&self) -> (copy: Self)
        ensures
            copy == *self,
    {
        Config {
            twilio_account_sid: match &self.twilio_account_sid {
                Some(sid) => Some(sid.clone()),
                None => None,
            },
            twilio_auth_token: match &self.twilio_auth_token {
                Some(token) => Some(token.clone()),
                None => None,
            },
        }
    }
}

} // verus!
