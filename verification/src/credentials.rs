//! The per-service secret that the messaging platform asks for.

use crate::text::{optional_text, to_upper, upper};
use vstd::prelude::*;

verus! {

/// The token under which a service may register its webhook.
#[derive(Clone, Debug, PartialEq, Eq)]
pub struct Credential {
    pub service_name: String,
    pub token: String,
}

/// A credential as mathematics sees it.
pub struct CredentialView {
    pub service_name: Seq<char>,
    pub token: Seq<char>,
}

impl View for Credential {
    type V = CredentialView;

    open spec fn view(&self) -> CredentialView {
        CredentialView { service_name: self.service_name@, token: self.token@ }
    }
}

/// The environment variable that holds the token of `service`: a fixed
/// prefix, then the service's name in upper case.
pub open spec fn token_variable(service: Seq<char>) -> Seq<char> {
    "BOT_TOKEN_"@ + upper(service)
}

/// The credential that a variable's value gives: none where the variable is
/// unset or empty.
pub open spec fn credential_from(service: Seq<char>, value: Option<Seq<char>>) -> Option<
    CredentialView,
> {
    match value {
        Some(token) => if token.len() > 0 {
            Some(CredentialView { service_name: service, token })
        } else {
            None
        },
        None => None,
    }
}

/// Names the environment variable that holds the token of `service`.
pub fn token_variable_for(service: &str) -> (variable: String)
    ensures
        variable@ == token_variable(service@),
{
    let raised = to_upper(service);
    String::from_str("BOT_TOKEN_").concat(raised.as_str())
}

/// Turns the value of a service's token variable into its credential.
pub fn resolve_token(service: &str, value: Option<String>) -> (credential: Option<Credential>)
    ensures
        credential matches Some(held) ==> credential_from(service@, optional_text(value)) == Some(
            held@,
        ),
        credential is None ==> credential_from(service@, optional_text(value)) is None,
{
    match value {
        Some(token) => {
            if token.as_str().is_empty() {
                None
            } else {
                Some(Credential { service_name: String::from_str(service), token })
            }
        },
        None => None,
    }
}

} // verus!
