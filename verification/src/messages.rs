//! The records that cross the relay connection: outbound control messages
//! (auth, subscribe, pong) and the inbound status and webhook shapes.

use vstd::prelude::*;
use vstd::string::StrSliceExecFns;

verus! {

/// The configuration the session starts from: relay key, relay secret and
/// the bucket to subscribe to.
#[derive(Debug)]
pub struct RelayConfig {
    pub key: String,
    pub secret: String,
    pub bucket: String,
}

/// A configuration is usable only when key and secret are both non-empty.
pub open spec fn config_valid(c: &RelayConfig) -> bool {
    c.key@.len() > 0 && c.secret@.len() > 0
}

/// Whether the configuration may drive a session.
pub fn check_config(c: &RelayConfig) -> (r: bool)
    ensures
        r == config_valid(c),
{
    c.key.as_str().unicode_len() > 0 && c.secret.as_str().unicode_len() > 0
}

/// The authentication message: the first frame sent on a fresh connection.
#[derive(Debug)]
pub struct AuthStruct {
    pub action: String,
    pub key: String,
    pub secret: String,
}

impl AuthStruct {
    /// The auth message for a configuration: action `auth`, credentials copied.
    pub fn from_config(c: &RelayConfig) -> (r: AuthStruct)
        ensures
            r.action@ == "auth"@,
            r.key@ == c.key@,
            r.secret@ == c.secret@,
    {
        AuthStruct { action: "auth".to_owned(), key: c.key.clone(), secret: c.secret.clone() }
    }
}

/// The keepalive reply sent for each inbound ping status.
#[derive(Debug)]
pub struct PongStruct {
    pub action: String,
}

impl PongStruct {
    /// The pong message: action `pong`, nothing else.
    pub fn new() -> (r: PongStruct)
        ensures
            r.action@ == "pong"@,
    {
        PongStruct { action: "pong".to_owned() }
    }
}

/// The subscription message, naming exactly one bucket.
#[derive(Debug)]
pub struct SubscribeStruct {
    pub action: String,
    pub buckets: Vec<String>,
}

impl SubscribeStruct {
    /// One bucket exactly: more is a programming error, not a runtime input.
    pub open spec fn wf(&self) -> bool {
        self.buckets@.len() == 1
    }

    /// The subscribe message for one bucket: action `subscribe`.
    pub fn new(bucket: &String) -> (r: SubscribeStruct)
        ensures
            r.wf(),
            r.action@ == "subscribe"@,
            r.buckets@[0]@ == bucket@,
    {
        let mut buckets: Vec<String> = Vec::new();
        buckets.push(bucket.clone());
        SubscribeStruct { action: "subscribe".to_owned(), buckets }
    }
}

/// The minimal inbound shape: only the discriminator, read first so the full
/// shape can be chosen.
#[derive(Debug)]
pub struct EventStruct {
    pub event_type: String,
}

/// An inbound status frame: authenticated, ping, or a server-defined value.
#[derive(Debug)]
pub struct StatusStruct {
    pub event_type: String,
    pub status: String,
    pub message: String,
}

/// An inbound webhook frame: one HTTP request to replay, described in full.
#[derive(Debug)]
pub struct WebhookStruct {
    pub meta: WebhookMetadata,
    pub event_type: String,
    pub body: String,
    pub method: String,
}

/// Where the forward is directed: the output the relay service chose for
/// the webhook, by name and destination URL.
#[derive(Debug)]
pub struct WebhookMetadata {
    pub output_name: String,
    pub output_destination: String,
}

/// The header block of a webhook frame.  Carried by the wire protocol but
/// not read by the forwarder, which propagates no headers.
#[derive(Debug)]
pub struct WebhookHeaders {
    pub output_name: String,
    pub output_destination: String,
}

} // verus!
