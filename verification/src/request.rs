//! Construction of the single outbound request to the upstream
//! text-generation endpoint, and the short-circuit decision taken when a
//! credential is absent.

use vstd::prelude::*;
use vstd::string::StringExecFns;
use crate::config::MissingCredential;
use crate::config::RelayConfig;
use crate::config::missing_text;
use crate::text::json_string;
use crate::text::encode_json_string;

verus! {

/// The endpoint URL for an account: the fixed template with the account id
/// substituted.
pub open spec fn completion_url_text(account_id: Seq<char>) -> Seq<char> {
    "https://api.cloudflare.com/client/v4/accounts/"@ + account_id
        + "/ai/run/@cf/meta/llama-3.1-8b-instruct"@
}

/// The Authorization header value for a token.
pub open spec fn auth_header_text(api_token: Seq<char>) -> Seq<char> {
    "Bearer "@ + api_token
}

/// The request body: a JSON object with the single field `prompt`.
pub open spec fn prompt_payload_text(prompt: Seq<char>) -> Seq<char> {
    "{\"prompt\":"@ + json_string(prompt) + "}"@
}

/// Everything the transport needs for the one upstream POST. Constructed
/// fresh per invocation; never reused across requests.
pub struct UpstreamRequest {
    pub url: String,
    pub auth_header: String,
    pub body: String,
}

/// What the relay decides before any network traffic: either fetch with the
/// given request, or skip the network call and deliver the degradation
/// message as the completion text.
pub enum RelayPlan {
    Fetch(UpstreamRequest),
    Degraded(String),
}

/// The prompt sent when the caller supplies none.
pub fn default_prompt() -> (r: &'static str)
    ensures
        r@ == "Where did the phrase Hello World come from"@,
{
    "Where did the phrase Hello World come from"
}

/// The endpoint URL for an account.
pub fn completion_url(account_id: &str) -> (r: String)
    ensures
        r@ == completion_url_text(account_id@),
{
    let mut r = String::from_str("https://api.cloudflare.com/client/v4/accounts/");
    r.append(account_id);
    r.append("/ai/run/@cf/meta/llama-3.1-8b-instruct");
    proof {
        assert(r@ =~= completion_url_text(account_id@));
    }
    r
}

/// The Authorization header value for a token.
pub fn auth_header_value(api_token: &str) -> (r: String)
    ensures
        r@ == auth_header_text(api_token@),
{
    let mut r = String::from_str("Bearer ");
    r.append(api_token);
    r
}

/// The JSON body carrying the prompt.
pub fn prompt_payload(prompt: &str) -> (r: String)
    ensures
        r@ == prompt_payload_text(prompt@),
{
    let mut r = String::from_str("{\"prompt\":");
    let encoded = encode_json_string(prompt);
    r.append(encoded.as_str());
    r.append("}");
    proof {
        assert(r@ =~= prompt_payload_text(prompt@));
    }
    r
}

/// Resolves the credentials and either builds the one upstream request or
/// short-circuits: with no account id configured (checked first), and with no
/// API token configured, no request is constructed and the corresponding
/// degradation message becomes the completion text.
pub fn plan_request(config: &RelayConfig, prompt: &str) -> (r: RelayPlan)
    ensures
        config.account_id is None ==> (r matches RelayPlan::Degraded(m) && m@ == missing_text(
            MissingCredential::AccountId,
        )),
        config.account_id is Some && config.api_token is None ==> (r matches RelayPlan::Degraded(m)
            && m@ == missing_text(MissingCredential::ApiToken)),
        config.account_id matches Some(a) ==> config.api_token matches Some(t) ==> (
        r matches RelayPlan::Fetch(req) && req.url@ == completion_url_text(a@)
            && req.auth_header@ == auth_header_text(t@) && req.body@ == prompt_payload_text(
            prompt@,
        )),
{
    match config.resolve() {
        Err(m) => RelayPlan::Degraded(crate::config::missing_message(m)),
        Ok(c) => RelayPlan::Fetch(
            UpstreamRequest {
                url: completion_url(c.account_id.as_str()),
                auth_header: auth_header_value(c.api_token.as_str()),
                body: prompt_payload(prompt),
            },
        ),
    }
}

} // verus!
