//! Fan-out: from one inbound event and a list of targets to one outbound
//! request per target, and from what came back to what is worth a log line.
//!
//! Nothing here touches the network. The caller sends each request and hands
//! back what it got.

use crate::endpoint::Endpoint;
use crate::headers::{pair_models, HeaderModel, Headers};
use crate::target::{authority_of, host_header, host_header_of, is_url, url_authority, Authority};
use crate::text::{decimal, decimal_text, lowercase, to_lowercase};
use vstd::prelude::*;

verus! {

/// A JSON value of the `serde_json` crate. Opaque here: a payload is carried
/// from the inbound event to each outbound request and never looked into.
#[verifier::external_type_specification]
#[verifier::external_body]
pub struct ExValue(serde_json::Value);

/// `serde_json::Value::clone`. Trusted: the copy equals the value it was
/// made from.
pub assume_specification[ <serde_json::Value as Clone>::clone ](
    value: &serde_json::Value,
) -> (copy: serde_json::Value)
    ensures
        copy == *value,
;

/// One webhook occurrence as captured at ingress.
#[derive(Debug)]
pub struct WebhookEvent {
    /// The body of the inbound request.
    pub payload: serde_json::Value,
    /// The headers of the inbound request.
    pub headers: Headers,
}

impl Clone for WebhookEvent {
    fn clone(&self) -> (e: WebhookEvent)
        ensures
            e.payload == self.payload,
            e.headers@ == self.headers@,
    {
        WebhookEvent { payload: self.payload.clone(), headers: self.headers.clone() }
    }
}

/// A POST that the caller is to send.
#[derive(Debug)]
pub struct OutboundRequest {
    /// Where to send it.
    pub url: String,
    /// The headers to set, in order.
    pub headers: Vec<(String, String)>,
    /// The body, to be sent as JSON.
    pub body: serde_json::Value,
}

/// Why a delivery failed.
#[derive(Debug)]
pub enum DeliveryError {
    /// The target's URL does not parse.
    InvalidUrl { details: String },
    /// The target's URL names no host.
    NoHost,
    /// The request could not be sent, or no response came back.
    Transport { description: String },
    /// The target answered with a status outside 200..=299.
    Status { code: u16, body: String },
}

/// The name under which the target's authority is sent.
pub open spec fn host_name() -> Seq<char> {
    seq!['H', 'o', 's', 't']
}

/// Whether a header name is `host` in any mix of upper and lower case.
pub open spec fn is_host_name(name: Seq<char>) -> bool {
    lowercase(name) == seq!['h', 'o', 's', 't']
}

/// The inbound headers that are passed on: all but those named `host`.
pub open spec fn passed_on(inbound: Seq<HeaderModel>) -> Seq<HeaderModel> {
    inbound.filter(|e: HeaderModel| !is_host_name(e.0))
}

/// The headers of an outbound request: `Host` with the target's authority
/// first, then the inbound headers that are passed on.
pub open spec fn outbound_headers(host: Seq<char>, inbound: Seq<HeaderModel>) -> Seq<HeaderModel> {
    seq![(host_name(), host)] + passed_on(inbound)
}

/// What stands in place of a response body that could not be read.
pub open spec fn unreadable_body() -> Seq<char> {
    "Unable to read error response"@
}

impl DeliveryError {
    /// The failure in words, as it is logged.
    pub open spec fn text(&self) -> Seq<char> {
        match self {
            DeliveryError::InvalidUrl { details } => "Failed to parse URL: "@ + details@,
            DeliveryError::NoHost => "URL has no host"@,
            DeliveryError::Transport { description } => "Failed to send request: "@
                + description@,
            DeliveryError::Status { code, body } => "Endpoint returned error status "@ + decimal(
                *code as nat,
            ) + ": "@ + body@,
        }
    }

    /// Writes the failure in words.
    pub fn message(&self) -> (m: String)
        ensures
            m@ == self.text(),
    {
        match self {
            DeliveryError::InvalidUrl { details } => {
                let mut m = String::from_str("Failed to parse URL: ");
                m.append(details.as_str());
                m
            },
            DeliveryError::NoHost => String::from_str("URL has no host"),
            DeliveryError::Transport { description } => {
                let mut m = String::from_str("Failed to send request: ");
                m.append(description.as_str());
                m
            },
            DeliveryError::Status { code, body } => {
                let mut m = String::from_str("Endpoint returned error status ");
                let digits = decimal_text(*code);
                m.append(digits.as_str());
                m.append(": ");
                m.append(body.as_str());
                m
            },
        }
    }
}

/// Tells whether a header name is `host` in any mix of upper and lower case.
pub fn names_host(name: &str) -> (b: bool)
    ensures
        b == is_host_name(name@),
{
    let lowered = to_lowercase(name);
    let host = String::from_str("host");
    proof {
        reveal_strlit("host");
        assert("host"@ =~= seq!['h', 'o', 's', 't']);
    }
    lowered == host
}

/// Builds the request that carries `event` to `url`, whose authority is
/// `authority`: the payload unchanged, `Host` set to the target's authority,
/// and the inbound headers passed on except any `host` of their own.
/// Fails with [`DeliveryError::NoHost`] exactly where the authority has no
/// host.
pub fn request_for(url: &str, authority: &Authority, event: &WebhookEvent) -> (r: Result<
    OutboundRequest,
    DeliveryError,
>)
    ensures
        match r {
            Ok(req) => {
                &&& host_header(authority@) is Some
                &&& req.url@ == url@
                &&& req.body == event.payload
                &&& pair_models(req.headers@) == outbound_headers(
                    host_header(authority@)->0,
                    event.headers@,
                )
            },
            Err(e) => e is NoHost && host_header(authority@) is None,
        },
{
    let host = match host_header_of(authority) {
        Some(h) => h,
        None => {
            return Err(DeliveryError::NoHost);
        },
    };
    let ghost inbound = event.headers@;
    let ghost keep = |e: HeaderModel| !is_host_name(e.0);
    let mut headers: Vec<(String, String)> = Vec::new();
    proof {
        reveal_strlit("Host");
        assert("Host"@ =~= host_name());
    }
    headers.push((String::from_str("Host"), host));
    let ghost first = pair_models(headers@);
    assert(first =~= seq![(host_name(), host_header(authority@)->0)]);
    assert(inbound.take(0).filter(keep) =~= Seq::<HeaderModel>::empty());
    let n: usize = event.headers.len();
    let mut i: usize = 0;
    while i < n
        invariant
            n == inbound.len(),
            i <= n,
            inbound == event.headers@,
            keep == |e: HeaderModel| !is_host_name(e.0),
            pair_models(headers@) =~= first + inbound.take(i as int).filter(keep),
        decreases n - i,
    {
        let name = event.headers.name(i);
        let ghost before = pair_models(headers@);
        proof {
            inbound.take(i as int).lemma_filter_push(inbound[i as int], keep);
            assert(inbound.take(i + 1) =~= inbound.take(i as int).push(inbound[i as int]));
        }
        if !names_host(name.as_str()) {
            headers.push((name.clone(), event.headers.value(i).clone()));
            assert(pair_models(headers@) =~= before.push(inbound[i as int]));
            assert(keep(inbound[i as int]));
        } else {
            assert(!keep(inbound[i as int]));
        }
        i += 1;
    }
    assert(inbound.take(n as int) =~= inbound);
    Ok(OutboundRequest { url: String::from_str(url), headers, body: event.payload.clone() })
}

/// Whether `r` is what preparing the delivery of `event` to a target at
/// `url` comes to: the request of [`request_for`] where the URL parses and
/// names a host, [`DeliveryError::InvalidUrl`] exactly where it does not
/// parse, [`DeliveryError::NoHost`] exactly where it parses and names no
/// host.
pub open spec fn prepared(
    r: Result<OutboundRequest, DeliveryError>,
    url: Seq<char>,
    event: WebhookEvent,
) -> bool {
    match r {
        Ok(req) => {
            &&& is_url(url)
            &&& host_header(url_authority(url)->0) is Some
            &&& req.url@ == url
            &&& req.body == event.payload
            &&& pair_models(req.headers@) == outbound_headers(
                host_header(url_authority(url)->0)->0,
                event.headers@,
            )
        },
        Err(DeliveryError::InvalidUrl { .. }) => !is_url(url),
        Err(DeliveryError::NoHost) => is_url(url) && host_header(url_authority(url)->0) is None,
        Err(_) => false,
    }
}

/// Prepares the delivery of `event` to `endpoint`: parses the endpoint's URL
/// and builds the request as [`request_for`] does.
pub fn forward_webhook(endpoint: &Endpoint, event: &WebhookEvent) -> (r: Result<
    OutboundRequest,
    DeliveryError,
>)
    ensures
        prepared(r, endpoint.url@, *event),
{
    match authority_of(endpoint.url.as_str()) {
        Err(details) => Err(DeliveryError::InvalidUrl { details }),
        Ok(authority) => request_for(endpoint.url.as_str(), &authority, event),
    }
}

/// The first header of an outbound request is `Host` with the target's
/// authority. What follows it are inbound headers, none of them named `host`
/// in any mix of case, and every inbound header under another name is among
/// them.
pub proof fn lemma_outbound_headers(host: Seq<char>, inbound: Seq<HeaderModel>)
    ensures
        outbound_headers(host, inbound).len() >= 1,
        outbound_headers(host, inbound)[0] == (host_name(), host),
        forall|i: int|
            1 <= i < outbound_headers(host, inbound).len() ==> !is_host_name(
                (#[trigger] outbound_headers(host, inbound)[i]).0,
            ) && inbound.contains(outbound_headers(host, inbound)[i]),
        forall|j: int|
            0 <= j < inbound.len() && !is_host_name((#[trigger] inbound[j]).0)
                ==> outbound_headers(host, inbound).contains(inbound[j]),
        outbound_headers(host, inbound).len() <= inbound.len() + 1,
{
    let keep = |e: HeaderModel| !is_host_name(e.0);
    let out = outbound_headers(host, inbound);
    let kept = inbound.filter(keep);
    inbound.lemma_filter_len(keep);
    assert forall|i: int| 1 <= i < out.len() implies !is_host_name((#[trigger] out[i]).0)
        && inbound.contains(out[i]) by {
        assert(out[i] == kept[i - 1]);
        inbound.lemma_filter_pred(keep, i - 1);
        assert(kept.contains(kept[i - 1]));
        inbound.lemma_filter_contains_rev(keep, kept[i - 1]);
    }
    assert forall|j: int|
        0 <= j < inbound.len() && !is_host_name((#[trigger] inbound[j]).0) implies out.contains(
        inbound[j],
    ) by {
        inbound.lemma_filter_contains(keep, j);
        let k = choose|k: int| 0 <= k < kept.len() && kept[k] == inbound[j];
        assert(out[k + 1] == inbound[j]);
    }
}

/// What came back from sending one request.
#[derive(Debug)]
pub enum Reply {
    /// A response arrived. `body` is its text, or `None` where the text was
    /// not read or could not be read.
    Response { code: u16, body: Option<String> },
    /// No response arrived.
    Failed { description: String },
}

/// Whether a status code reports success: 200 to 299.
pub open spec fn is_success(code: u16) -> bool {
    200 <= code < 300
}

/// Tells whether a status code reports success.
pub fn status_is_success(code: u16) -> (b: bool)
    ensures
        b == is_success(code),
{
    200 <= code && code < 300
}

/// Classifies what came back: a response with a status from 200 to 299 is a
/// success, whatever its body; any other response fails with its status and
/// its body, or with [`unreadable_body`] in place of a body that is missing;
/// no response fails with the transport's description.
pub fn classify(reply: Reply) -> (outcome: Result<(), DeliveryError>)
    ensures
        match reply {
            Reply::Response { code, body } => if is_success(code) {
                outcome is Ok
            } else {
                match outcome {
                    Err(DeliveryError::Status { code: c, body: b }) => c == code && b@ == (
                    match body {
                        Some(text) => text@,
                        None => unreadable_body(),
                    }),
                    _ => false,
                }
            },
            Reply::Failed { description } => outcome matches Err(
                DeliveryError::Transport { description: d },
            ) && d@ == description@,
        },
{
    match reply {
        Reply::Response { code, body } => {
            if status_is_success(code) {
                Ok(())
            } else {
                let text = match body {
                    Some(text) => text,
                    None => String::from_str("Unable to read error response"),
                };
                Err(DeliveryError::Status { code, body: text })
            }
        },
        Reply::Failed { description } => Err(DeliveryError::Transport { description }),
    }
}

/// One delivery of a batch, before anything is sent.
#[derive(Debug)]
pub struct Delivery {
    /// The target's display name.
    pub target: String,
    /// The request to send, or why none can be sent.
    pub request: Result<OutboundRequest, DeliveryError>,
}

/// What a dispatch is to do.
#[derive(Debug)]
pub enum DispatchPlan {
    /// There is no target, and so nothing to send.
    NoActiveTargets,
    /// One delivery per target, in the targets' order.
    Deliveries(Vec<Delivery>),
}

/// Plans the fan-out of `event` to `targets`. Without targets nothing is to
/// be sent. Otherwise each target gets a delivery of its own, prepared as
/// [`forward_webhook`] does: a target whose URL stands in the way fails
/// alone, and the others are not touched by it.
pub fn dispatch(event: &WebhookEvent, targets: &Vec<Endpoint>) -> (plan: DispatchPlan)
    ensures
        targets@.len() == 0 <==> plan is NoActiveTargets,
        plan matches DispatchPlan::Deliveries(deliveries) ==> {
            &&& deliveries@.len() == targets@.len()
            &&& forall|i: int|
                0 <= i < targets@.len() ==> (#[trigger] deliveries@[i]).target@ == targets@[i].name@
                    && prepared(deliveries@[i].request, targets@[i].url@, *event)
        },
{
    if targets.len() == 0 {
        return DispatchPlan::NoActiveTargets;
    }
    let mut deliveries: Vec<Delivery> = Vec::new();
    let mut i: usize = 0;
    while i < targets.len()
        invariant
            i <= targets.len(),
            deliveries@.len() == i,
            forall|j: int|
                0 <= j < i ==> (#[trigger] deliveries@[j]).target@ == targets@[j].name@ && prepared(
                    deliveries@[j].request,
                    targets@[j].url@,
                    *event,
                ),
        decreases targets.len() - i,
    {
        let request = forward_webhook(&targets[i], event);
        deliveries.push(Delivery { target: targets[i].name.clone(), request });
        i += 1;
    }
    DispatchPlan::Deliveries(deliveries)
}

/// One delivery of a batch, after it has run its course.
#[derive(Debug)]
pub struct DeliveryResult {
    /// The target's display name.
    pub target: String,
    /// How the delivery ended.
    pub outcome: Result<(), DeliveryError>,
}

/// A failed delivery as it is logged.
#[derive(Debug)]
pub struct FailureLine {
    /// The target's display name.
    pub target: String,
    /// The failure in words.
    pub detail: String,
}

/// How a dispatch ended.
#[derive(Debug)]
pub enum DispatchOutcome {
    /// There was no target.
    NoActiveTargets,
    /// Every delivery has run its course.
    Completed {
        /// How many deliveries succeeded.
        delivered: usize,
        /// The deliveries that failed, in the targets' order.
        failures: Vec<FailureLine>,
    },
}

/// What a result stands for: the target's name, and the failure in words if
/// the delivery failed.
pub open spec fn result_model(r: DeliveryResult) -> (Seq<char>, Option<Seq<char>>) {
    (
        r.target@,
        match r.outcome {
            Ok(_) => None,
            Err(e) => Some(e.text()),
        },
    )
}

/// The models of a list of results, in order.
pub open spec fn result_models(list: Seq<DeliveryResult>) -> Seq<(Seq<char>, Option<Seq<char>>)> {
    list.map_values(|r: DeliveryResult| result_model(r))
}

/// The models of a list of failure lines, in order.
pub open spec fn line_models(list: Seq<FailureLine>) -> Seq<(Seq<char>, Option<Seq<char>>)> {
    list.map_values(|l: FailureLine| (l.target@, Some(l.detail@)))
}

/// The results that are failures, in order.
pub open spec fn failed(results: Seq<(Seq<char>, Option<Seq<char>>)>) -> Seq<
    (Seq<char>, Option<Seq<char>>),
> {
    results.filter(|r: (Seq<char>, Option<Seq<char>>)| r.1 is Some)
}

/// Sums up a batch once every delivery has run its course. An empty batch is
/// reported as such. Otherwise the failures are listed in the targets' order,
/// each with its target's name and its failure in words, and the successes
/// are counted; every delivery is one or the other.
pub fn conclude(results: &Vec<DeliveryResult>) -> (outcome: DispatchOutcome)
    ensures
        results@.len() == 0 <==> outcome is NoActiveTargets,
        outcome matches DispatchOutcome::Completed { delivered, failures } ==> {
            &&& line_models(failures@) == failed(result_models(results@))
            &&& delivered + failures@.len() == results@.len()
        },
{
    if results.len() == 0 {
        return DispatchOutcome::NoActiveTargets;
    }
    let ghost all = result_models(results@);
    let ghost is_failure = |r: (Seq<char>, Option<Seq<char>>)| r.1 is Some;
    let mut failures: Vec<FailureLine> = Vec::new();
    let mut delivered: usize = 0;
    let mut i: usize = 0;
    assert(all.take(0).filter(is_failure) =~= Seq::empty());
    while i < results.len()
        invariant
            i <= results.len(),
            all == result_models(results@),
            is_failure == |r: (Seq<char>, Option<Seq<char>>)| r.1 is Some,
            line_models(failures@) =~= all.take(i as int).filter(is_failure),
            delivered + failures@.len() == i,
        decreases results.len() - i,
    {
        let ghost before = line_models(failures@);
        proof {
            all.take(i as int).lemma_filter_push(all[i as int], is_failure);
            assert(all.take(i + 1) =~= all.take(i as int).push(all[i as int]));
        }
        match &results[i].outcome {
            Ok(_) => {
                delivered += 1;
                assert(!is_failure(all[i as int]));
            },
            Err(e) => {
                failures.push(FailureLine { target: results[i].target.clone(), detail: e.message() });
                assert(line_models(failures@) =~= before.push(all[i as int]));
                assert(is_failure(all[i as int]));
            },
        }
        i += 1;
    }
    assert(all.take(i as int) =~= all);
    DispatchOutcome::Completed { delivered, failures }
}

} // verus!
