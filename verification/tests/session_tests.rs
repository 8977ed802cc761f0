use relay_client::check_method_token;
use relay_client::check_url;
use relay_client::codec::decode_frame;
use relay_client::codec::InboundFrame;
use relay_client::forward::forward_plan;
use relay_client::messages::check_config;
use relay_client::messages::RelayConfig;
use relay_client::messages::StatusStruct;
use relay_client::messages::WebhookMetadata;
use relay_client::messages::WebhookStruct;
use relay_client::session::handle_frame;
use relay_client::session::initial_auth;
use relay_client::session::resume_after_forward;
use relay_client::session::ForwardOutcome;
use relay_client::session::SessionState;

fn config() -> RelayConfig {
    RelayConfig {
        key: "the-key".to_string(),
        secret: "the-secret".to_string(),
        bucket: "my-bucket".to_string(),
    }
}

fn status(status: &str) -> InboundFrame {
    InboundFrame::Status(StatusStruct {
        event_type: "status".to_string(),
        status: status.to_string(),
        message: "m".to_string(),
    })
}

#[test]
fn first_frame_is_auth_request() {
    assert_eq!(
        initial_auth(&config()),
        "{\"action\":\"auth\",\"key\":\"the-key\",\"secret\":\"the-secret\"}"
    );
}

#[test]
fn authenticated_triggers_one_subscribe() {
    let r = handle_frame(&config(), SessionState::Authenticating, status("authenticated"));
    assert_eq!(r.next, SessionState::Subscribed);
    assert_eq!(
        r.reply.unwrap(),
        "{\"action\":\"subscribe\",\"buckets\":[\"my-bucket\"]}"
    );
    assert!(r.forward.is_none());
}

#[test]
fn ping_triggers_one_pong() {
    let r = handle_frame(&config(), SessionState::Authenticating, status("ping"));
    assert_eq!(r.next, SessionState::Authenticating);
    assert_eq!(r.reply.unwrap(), "{\"action\":\"pong\"}");
    assert!(r.forward.is_none());

    let r = handle_frame(&config(), SessionState::Subscribed, status("ping"));
    assert_eq!(r.next, SessionState::Subscribed);
    assert_eq!(r.reply.unwrap(), "{\"action\":\"pong\"}");
    assert!(r.forward.is_none());
}

#[test]
fn unrecognized_status_is_ignored() {
    let r = handle_frame(&config(), SessionState::Subscribed, status("subscribed"));
    assert_eq!(r.next, SessionState::Subscribed);
    assert!(r.reply.is_none());
    assert!(r.forward.is_none());
}

#[test]
fn webhook_is_handed_to_the_forwarder() {
    let w = WebhookStruct {
        meta: WebhookMetadata {
            output_name: "n".to_string(),
            output_destination: "http://localhost:8080/x".to_string(),
        },
        event_type: "webhook".to_string(),
        body: "{\"hi\":\"there\"}".to_string(),
        method: "PUT".to_string(),
    };
    let r = handle_frame(&config(), SessionState::Subscribed, InboundFrame::Webhook(w));
    assert_eq!(r.next, SessionState::Subscribed);
    assert!(r.reply.is_none());
    let w = r.forward.unwrap();
    assert_eq!(w.method, "PUT");
    assert_eq!(w.body, "{\"hi\":\"there\"}");
}

#[test]
fn forward_plan_takes_the_event_verbatim() {
    let text = "{\"type\":\"webhook\",\"meta\":{\"output_name\":\"111\",\"output_destination\":\"http://localhost:8080/x\"},\"body\":\"{\\\"hi\\\":\\\"there\\\"}\",\"method\":\"PUT\"}";
    match decode_frame(text).unwrap() {
        InboundFrame::Webhook(w) => {
            let plan = forward_plan(&w);
            assert_eq!(plan.method, "PUT");
            assert_eq!(plan.url, "http://localhost:8080/x");
            assert_eq!(plan.body, "{\"hi\":\"there\"}");
        }
        InboundFrame::Status(_) => panic!("webhook frame decoded as status"),
    }
}

#[test]
fn forward_outcome_never_changes_state() {
    assert_eq!(
        resume_after_forward(SessionState::Subscribed, &ForwardOutcome::Failed),
        SessionState::Subscribed
    );
    assert_eq!(
        resume_after_forward(SessionState::Subscribed, &ForwardOutcome::Delivered(200)),
        SessionState::Subscribed
    );
    assert_eq!(
        resume_after_forward(SessionState::Authenticating, &ForwardOutcome::Failed),
        SessionState::Authenticating
    );
}

#[test]
fn config_requires_key_and_secret() {
    assert!(check_config(&config()));
    let mut c = config();
    c.key = String::new();
    assert!(!check_config(&c));
    let mut c = config();
    c.secret = String::new();
    assert!(!check_config(&c));
    let mut c = config();
    c.bucket = String::new();
    assert!(check_config(&c));
}

#[test]
fn method_tokens_follow_the_grammar() {
    assert!(check_method_token("GET"));
    assert!(check_method_token("PUT"));
    assert!(check_method_token("M-SEARCH"));
    assert!(!check_method_token(""));
    assert!(!check_method_token("P UT"));
    assert!(!check_method_token("GET/"));
}

#[test]
fn urls_are_judged_by_the_parser() {
    assert!(check_url("http://localhost:8080/x"));
    assert!(check_url("https://example.com/a?b=c"));
    assert!(!check_url("not a url"));
    assert!(!check_url("/relative/path"));
}
