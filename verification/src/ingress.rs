//! The ingress side: what an inbound webhook is answered with, and the job
//! that is handed to the dispatcher in the background.
//!
//! The answer never waits for a delivery: it is decided from the registry's
//! snapshot alone, before anything is sent.

use crate::dispatch::WebhookEvent;
use crate::endpoint::{models, Endpoint, EndpointModel};
use crate::headers::{captured, raw_models, Headers};
use crate::registry::{active, NotFound, Registry};
use vstd::prelude::*;

verus! {

/// What the sender of a webhook is told.
#[derive(Debug, Clone, Copy, PartialEq, Eq, Structural)]
pub enum Acknowledgement {
    /// The event was taken and is being forwarded.
    Accepted,
    /// The event was taken, and there is nobody to forward it to.
    NoActiveEndpoints,
}

impl Acknowledgement {
    /// The status word of the answer.
    pub open spec fn status_text(&self) -> Seq<char> {
        match self {
            Acknowledgement::Accepted => "accepted"@,
            Acknowledgement::NoActiveEndpoints => "no_active_endpoints"@,
        }
    }

    /// The message of the answer.
    pub open spec fn message_text(&self) -> Seq<char> {
        match self {
            Acknowledgement::Accepted => "Webhook received and processing started"@,
            Acknowledgement::NoActiveEndpoints => "No active endpoints configured"@,
        }
    }

    /// The status word of the answer.
    pub fn status(&self) -> (s: &'static str)
        ensures
            s@ == self.status_text(),
    {
        match self {
            Acknowledgement::Accepted => "accepted",
            Acknowledgement::NoActiveEndpoints => "no_active_endpoints",
        }
    }

    /// The message of the answer.
    pub fn message(&self) -> (s: &'static str)
        ensures
            s@ == self.message_text(),
    {
        match self {
            Acknowledgement::Accepted => "Webhook received and processing started",
            Acknowledgement::NoActiveEndpoints => "No active endpoints configured",
        }
    }
}

/// A self-contained unit of background work: an event and the targets it
/// goes to.
#[derive(Debug)]
pub struct DispatchJob {
    pub event: WebhookEvent,
    pub targets: Vec<Endpoint>,
}

/// What becomes of an inbound webhook: the answer to its sender, and the job
/// to launch, if there is one.
#[derive(Debug)]
pub struct Reception {
    pub acknowledgement: Acknowledgement,
    pub job: Option<DispatchJob>,
}

/// The destination that a service key is routed to, for the keys that have
/// one.
pub open spec fn static_route(service: Seq<char>) -> Option<Seq<char>> {
    if service == "fincra"@ {
        Some("https://staging.webhook.api.mavapay.co/webhook/fincra"@)
    } else if service == "splice"@ {
        Some("https://staging.webhook.api.mavapay.co/webhook/splice"@)
    } else if service == "useorange"@ {
        Some("https://staging.webhook.api.mavapay.co/webhook/useorange"@)
    } else if service == "galoy"@ {
        Some("https://staging.webhook.api.mavapay.co/webhook/galoy"@)
    } else {
        None
    }
}

/// The target that stands for a service key: the key as identifier, its
/// destination as URL, always active.
pub open spec fn static_target(service: Seq<char>) -> Option<EndpointModel> {
    match static_route(service) {
        Some(url) => Some(
            EndpointModel {
                id: service,
                url,
                name: "Static "@ + service + " endpoint"@,
                is_active: true,
            },
        ),
        None => None,
    }
}

/// Looks up the destination of a service key.
pub fn static_destination(service: &str) -> (r: Option<&'static str>)
    ensures
        match r {
            Some(url) => static_route(service@) == Some(url@),
            None => static_route(service@) is None,
        },
{
    let key = String::from_str(service);
    if key == String::from_str("fincra") {
        Some("https://staging.webhook.api.mavapay.co/webhook/fincra")
    } else if key == String::from_str("splice") {
        Some("https://staging.webhook.api.mavapay.co/webhook/splice")
    } else if key == String::from_str("useorange") {
        Some("https://staging.webhook.api.mavapay.co/webhook/useorange")
    } else if key == String::from_str("galoy") {
        Some("https://staging.webhook.api.mavapay.co/webhook/galoy")
    } else {
        None
    }
}

/// Builds the target that stands for a service key.
pub fn static_endpoint(service: &str) -> (r: Option<Endpoint>)
    ensures
        match r {
            Some(e) => static_target(service@) == Some(e@),
            None => static_target(service@) is None,
        },
{
    match static_destination(service) {
        None => None,
        Some(url) => {
            let mut name = String::from_str("Static ");
            name.append(service);
            name.append(" endpoint");
            Some(
                Endpoint {
                    id: String::from_str(service),
                    url: String::from_str(url),
                    name,
                    is_active: true,
                },
            )
        },
    }
}

/// Takes in a webhook that goes to the registry's active endpoints. The
/// headers are captured, and the event is handed on with a copy of the
/// endpoints that are active now. Where none is active, the sender is told
/// so and there is no job.
pub fn receive_webhook(
    payload: serde_json::Value,
    raw_headers: &Vec<(String, Option<String>)>,
    registry: &Registry,
) -> (r: Reception)
    ensures
        active(registry@).len() == 0 ==> r.acknowledgement == Acknowledgement::NoActiveEndpoints
            && r.job is None,
        active(registry@).len() > 0 ==> r.acknowledgement == Acknowledgement::Accepted
            && r.job is Some,
        r.job matches Some(job) ==> {
            &&& job.event.payload == payload
            &&& job.event.headers.wf()
            &&& job.event.headers@ == captured(raw_models(raw_headers@))
            &&& models(job.targets@) == active(registry@)
        },
{
    let event = WebhookEvent { payload, headers: Headers::capture(raw_headers) };
    let targets = registry.active_endpoints();
    if targets.len() == 0 {
        Reception { acknowledgement: Acknowledgement::NoActiveEndpoints, job: None }
    } else {
        Reception {
            acknowledgement: Acknowledgement::Accepted,
            job: Some(DispatchJob { event, targets }),
        }
    }
}

/// Takes in a webhook that names its target by a service key. An unknown key
/// is refused. For a known key the sender is told that the event was
/// accepted, and the job carries the event to the one target of that key.
pub fn handle_specific_webhook(
    service: &str,
    payload: serde_json::Value,
    raw_headers: &Vec<(String, Option<String>)>,
) -> (r: Result<Reception, NotFound>)
    ensures
        match r {
            Ok(reception) => {
                &&& static_target(service@) is Some
                &&& reception.acknowledgement == Acknowledgement::Accepted
                &&& reception.job matches Some(job) && {
                    &&& job.event.payload == payload
                    &&& job.event.headers.wf()
                    &&& job.event.headers@ == captured(raw_models(raw_headers@))
                    &&& models(job.targets@) == seq![static_target(service@)->0]
                }
            },
            Err(_) => static_target(service@) is None,
        },
{
    match static_endpoint(service) {
        None => Err(NotFound),
        Some(target) => {
            let event = WebhookEvent { payload, headers: Headers::capture(raw_headers) };
            let mut targets: Vec<Endpoint> = Vec::new();
            targets.push(target);
            assert(models(targets@) =~= seq![static_target(service@)->0]);
            Ok(
                Reception {
                    acknowledgement: Acknowledgement::Accepted,
                    job: Some(DispatchJob { event, targets }),
                },
            )
        },
    }
}

} // verus!
