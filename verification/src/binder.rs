//! The webhook binder: what to send to the messaging platform, and what to
//! make of its answer.

use crate::credentials::{Credential, CredentialView};
use crate::discovery::{is_success, status_ok};
use crate::json::{encode_text_object, fields_view, text_object_bytes};
use crate::services::{DiscoveredService, ServiceView};
use vstd::prelude::*;

verus! {

/// One registration call: a POST of `body` to `endpoint`.
#[derive(Clone, Debug, PartialEq, Eq)]
pub struct BindRequest {
    pub service_name: String,
    pub endpoint: String,
    pub content_type: String,
    pub body: Vec<u8>,
}

/// A registration call as mathematics sees it.
pub struct RequestView {
    pub service_name: Seq<char>,
    pub endpoint: Seq<char>,
    pub content_type: Seq<char>,
    pub body: Seq<u8>,
}

impl View for BindRequest {
    type V = RequestView;

    open spec fn view(&self) -> RequestView {
        RequestView {
            service_name: self.service_name@,
            endpoint: self.endpoint@,
            content_type: self.content_type@,
            body: self.body@,
        }
    }
}

/// What came back from one registration call.
#[derive(Clone, Debug, PartialEq, Eq)]
pub enum PlatformReply {
    /// A response, whatever its status, with its body as text.
    Response { status: u16, body: String },
    /// No response; `detail` is the transport's own account.
    Failed { detail: String },
}

/// The platform's reply as mathematics sees it.
pub enum PlatformReplyView {
    Response { status: u16, body: Seq<char> },
    Failed { detail: Seq<char> },
}

impl View for PlatformReply {
    type V = PlatformReplyView;

    open spec fn view(&self) -> PlatformReplyView {
        match self {
            PlatformReply::Response { status, body } => PlatformReplyView::Response {
                status: *status,
                body: body@,
            },
            PlatformReply::Failed { detail } => PlatformReplyView::Failed { detail: detail@ },
        }
    }
}

/// How one attempt to bind a service ended.
#[derive(Clone, Debug, PartialEq, Eq)]
pub struct BindOutcome {
    pub service_name: String,
    pub succeeded: bool,
    pub detail: String,
}

/// A bind outcome as mathematics sees it.
pub struct OutcomeView {
    pub service_name: Seq<char>,
    pub succeeded: bool,
    pub detail: Seq<char>,
}

impl View for BindOutcome {
    type V = OutcomeView;

    open spec fn view(&self) -> OutcomeView {
        OutcomeView {
            service_name: self.service_name@,
            succeeded: self.succeeded,
            detail: self.detail@,
        }
    }
}

/// Where the platform is to deliver the events of a service.
pub open spec fn webhook_url(public_url: Seq<char>) -> Seq<char> {
    public_url + "/webhook"@
}

/// The platform's registration endpoint for the holder of `token`.
pub open spec fn endpoint_for(token: Seq<char>) -> Seq<char> {
    "https://api.telegram.org/bot"@ + token + "/setWebhook"@
}

/// The members of the registration body: the webhook URL under `url`, the
/// shared secret under `secret_token`.
pub open spec fn payload(public_url: Seq<char>, shared_secret: Seq<char>) -> Seq<
    (Seq<char>, Seq<char>),
> {
    seq![("url"@, webhook_url(public_url)), ("secret_token"@, shared_secret)]
}

/// The registration call that binds `service` with `credential`.
pub open spec fn request_for(
    service: ServiceView,
    credential: CredentialView,
    shared_secret: Seq<char>,
) -> RequestView {
    RequestView {
        service_name: service.name,
        endpoint: endpoint_for(credential.token),
        content_type: "application/json"@,
        body: text_object_bytes(payload(service.public_url, shared_secret)),
    }
}

/// The outcome of binding `service` that `reply` amounts to. A response of
/// success names the webhook URL that is now bound; any other response gives
/// its body, and a failed call its account.
pub open spec fn outcome_of(service: ServiceView, reply: PlatformReplyView) -> OutcomeView {
    match reply {
        PlatformReplyView::Response { status, body } => if status_ok(status) {
            OutcomeView {
                service_name: service.name,
                succeeded: true,
                detail: webhook_url(service.public_url),
            }
        } else {
            OutcomeView { service_name: service.name, succeeded: false, detail: body }
        },
        PlatformReplyView::Failed { detail } => OutcomeView {
            service_name: service.name,
            succeeded: false,
            detail,
        },
    }
}

/// Builds the webhook URL of a public URL.
pub fn webhook_url_for(public_url: &str) -> (url: String)
    ensures
        url@ == webhook_url(public_url@),
{
    String::from_str(public_url).concat("/webhook")
}

/// Builds the registration call for `service`.
pub fn bind_request(service: &DiscoveredService, credential: &Credential, shared_secret: &str) -> (
    request: BindRequest
)
    ensures
        request@ == request_for(service@, credential@, shared_secret@),
{
    let endpoint = String::from_str("https://api.telegram.org/bot").concat(
        credential.token.as_str(),
    ).concat("/setWebhook");
    let mut fields: Vec<(String, String)> = Vec::new();
    fields.push((String::from_str("url"), webhook_url_for(service.public_url.as_str())));
    fields.push((String::from_str("secret_token"), String::from_str(shared_secret)));
    assert(fields_view(fields@) =~= payload(service@.public_url, shared_secret@));
    BindRequest {
        service_name: service.name.clone(),
        endpoint,
        content_type: String::from_str("application/json"),
        body: encode_text_object(&fields),
    }
}

/// Judges what the platform answered to the registration call for `service`.
pub fn bind_outcome(service: &DiscoveredService, reply: &PlatformReply) -> (outcome: BindOutcome)
    ensures
        outcome@ == outcome_of(service@, reply@),
{
    match reply {
        PlatformReply::Response { status, body } => {
            if is_success(*status) {
                BindOutcome {
                    service_name: service.name.clone(),
                    succeeded: true,
                    detail: webhook_url_for(service.public_url.as_str()),
                }
            } else {
                BindOutcome {
                    service_name: service.name.clone(),
                    succeeded: false,
                    detail: body.clone(),
                }
            }
        },
        PlatformReply::Failed { detail } => BindOutcome {
            service_name: service.name.clone(),
            succeeded: false,
            detail: detail.clone(),
        },
    }
}

} // verus!
