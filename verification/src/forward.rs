//! The forwarder's verified half: from a decoded webhook event to the one
//! outbound HTTP request it describes.  Executing the request and streaming
//! the response body to the output sink is transport work and stays outside.

use vstd::prelude::*;

use crate::messages::WebhookStruct;

verus! {

/// One outbound HTTP request, ready to execute: verb, target and body.
pub struct ForwardPlan {
    pub method: String,
    pub url: String,
    pub body: String,
}

/// The request a webhook event describes: method, URL and body taken
/// verbatim from the event, nothing added and nothing propagated besides.
pub fn forward_plan(w: &WebhookStruct) -> (r: ForwardPlan)
    ensures
        r.method@ == w.method@,
        r.url@ == w.meta.output_destination@,
        r.body@ == w.body@,
{
    ForwardPlan {
        method: w.method.clone(),
        url: w.meta.output_destination.clone(),
        body: w.body.clone(),
    }
}

} // verus!
