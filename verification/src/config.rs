//! Credential resolution: a pure lookup over an explicit configuration
//! struct, reporting the first absent value without failing the request.

use vstd::prelude::*;
use vstd::string::StringExecFns;

verus! {

/// Which of the two required configuration values is absent.
#[derive(Clone, Copy, PartialEq, Eq, Structural, Debug)]
pub enum MissingCredential {
    AccountId,
    ApiToken,
}

/// Process-wide configuration handed in by the host; either value may be
/// absent. Resolution is a pure function over this struct, so there is no
/// hidden global state.
pub struct RelayConfig {
    pub account_id: Option<String>,
    pub api_token: Option<String>,
}

/// Credentials for one upstream request: both values present, immutable once
/// resolved, scoped to a single request.
#[derive(Debug)]
pub struct Credentials {
    pub account_id: String,
    pub api_token: String,
}

/// The degradation message owed when a configuration value is absent.
pub open spec fn missing_text(which: MissingCredential) -> Seq<char> {
    match which {
        MissingCredential::AccountId => "Error: CLOUDFLARE_ACCOUNT_ID environment variable not set"@,
        MissingCredential::ApiToken => "Error: CLOUDFLARE_API_TOKEN environment variable not set"@,
    }
}

impl RelayConfig {
    /// Pure lookup: yields credentials exactly when both values are
    /// configured, else names the first absent one, the account id being
    /// checked first.
    pub fn resolve(&self) -> (r: Result<Credentials, MissingCredential>)
        ensures
            r is Ok <==> self.account_id is Some && self.api_token is Some,
            match r {
                Ok(c) => {
                    &&& self.account_id matches Some(a) && a@ == c.account_id@
                    &&& self.api_token matches Some(t) && t@ == c.api_token@
                },
                Err(m) => match m {
                    MissingCredential::AccountId => self.account_id is None,
                    MissingCredential::ApiToken => self.account_id is Some
                        && self.api_token is None,
                },
            },
    {
        match (&self.account_id, &self.api_token) {
            (Some(a), Some(t)) => Ok(
                Credentials { account_id: a.clone(), api_token: t.clone() },
            ),
            (None, _) => Err(MissingCredential::AccountId),
            (Some(_), None) => Err(MissingCredential::ApiToken),
        }
    }
}

/// Law: the degradation message for an absent credential is never empty, so
/// it always frames as at least one content frame.
pub proof fn lemma_missing_text_nonempty(which: MissingCredential)
    ensures
        missing_text(which).len() > 0,
{
    reveal_strlit("Error: CLOUDFLARE_ACCOUNT_ID environment variable not set");
    reveal_strlit("Error: CLOUDFLARE_API_TOKEN environment variable not set");
}

/// The degradation message for an absent configuration value, as delivered
/// to the client in place of a completion.
pub fn missing_message(which: MissingCredential) -> (r: String)
    ensures
        r@ == missing_text(which),
{
    match which {
        MissingCredential::AccountId => String::from_str(
            "Error: CLOUDFLARE_ACCOUNT_ID environment variable not set",
        ),
        MissingCredential::ApiToken => String::from_str(
            "Error: CLOUDFLARE_API_TOKEN environment variable not set",
        ),
    }
}

} // verus!
