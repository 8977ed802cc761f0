//! The session state machine: auth on connect, subscribe once authenticated,
//! pong for every ping, hand webhooks to the forwarder, ignore anything else.
//! The transport loop outside performs what a step decides and feeds the next
//! frame back in.

use vstd::prelude::*;

use crate::codec::encode_auth;
use crate::codec::encode_pong;
use crate::codec::encode_subscribe;
use crate::codec::sp_encode_auth;
use crate::codec::sp_encode_pong;
use crate::codec::sp_encode_subscribe;
use crate::codec::InboundFrame;
use crate::messages::AuthStruct;
use crate::messages::PongStruct;
use crate::messages::RelayConfig;
use crate::messages::SubscribeStruct;
use crate::messages::WebhookStruct;

verus! {

/// Where the session stands.  Connecting precedes the loop; once the auth
/// message is on the wire the session is authenticating, and one
/// authenticated status moves it to its steady state.
#[derive(Clone, Copy, PartialEq, Eq, Structural, Debug)]
pub enum SessionState {
    Authenticating,
    Subscribed,
}

/// What one step decides: the state to continue in, at most one frame to
/// send back, and at most one webhook to forward before the next receive.
pub struct StepResult {
    pub next: SessionState,
    pub reply: Option<String>,
    pub forward: Option<WebhookStruct>,
}

/// How one forward ended: the response's status code, or a transport or
/// body-read failure.  Either way the session goes on.
#[derive(Clone, Copy, PartialEq, Eq, Structural, Debug)]
pub enum ForwardOutcome {
    Delivered(u16),
    Failed,
}

/// The first frame sent after a successful connect: exactly one auth message
/// carrying the configured credentials.
pub fn initial_auth(cfg: &RelayConfig) -> (r: String)
    ensures
        r@ == sp_encode_auth("auth"@, cfg.key@, cfg.secret@),
{
    let auth = AuthStruct::from_config(cfg);
    encode_auth(&auth)
}

/// One step of the session: routes a decoded frame.  An authenticated status
/// yields exactly one subscribe message naming the configured bucket; a ping
/// status yields exactly one pong; any other status is ignored; a webhook is
/// handed on to be forwarded, the state unchanged.
pub fn handle_frame(cfg: &RelayConfig, state: SessionState, frame: InboundFrame) -> (r: StepResult)
    ensures
        match frame {
            InboundFrame::Status(st) => {
                &&& r.forward is None
                &&& (st.status@ == "authenticated"@ ==> r.next == SessionState::Subscribed && (
                r.reply matches Some(m) && m@ == sp_encode_subscribe("subscribe"@, cfg.bucket@)))
                &&& (st.status@ == "ping"@ ==> r.next == state && (r.reply matches Some(m) && m@
                    == sp_encode_pong("pong"@)))
                &&& (st.status@ != "authenticated"@ && st.status@ != "ping"@ ==> r.next == state
                    && r.reply is None)
            },
            InboundFrame::Webhook(w) => r.next == state && r.reply is None && r.forward == Some(w),
        },
{
    proof {
        reveal_strlit("authenticated");
        reveal_strlit("ping");
        assert("authenticated"@.len() == 13);
        assert("ping"@.len() == 4);
    }
    match frame {
        InboundFrame::Status(st) => {
            if st.status == "authenticated".to_owned() {
                let sub = SubscribeStruct::new(&cfg.bucket);
                StepResult {
                    next: SessionState::Subscribed,
                    reply: Some(encode_subscribe(&sub)),
                    forward: None,
                }
            } else if st.status == "ping".to_owned() {
                let pong = PongStruct::new();
                StepResult { next: state, reply: Some(encode_pong(&pong)), forward: None }
            } else {
                StepResult { next: state, reply: None, forward: None }
            }
        },
        InboundFrame::Webhook(w) => StepResult { next: state, reply: None, forward: Some(w) },
    }
}

/// After a forward has run to completion the session carries on unchanged,
/// whatever the outcome: a failed forward is logged by the caller, never
/// fatal, and no frame is sent for it.
pub fn resume_after_forward(state: SessionState, outcome: &ForwardOutcome) -> (r: SessionState)
    ensures
        r == state,
{
    match outcome {
        ForwardOutcome::Delivered(_) => state,
        ForwardOutcome::Failed => state,
    }
}

} // verus!
