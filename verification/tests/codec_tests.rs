use relay_client::codec::decode_auth;
use relay_client::codec::decode_event;
use relay_client::codec::decode_frame;
use relay_client::codec::decode_pong;
use relay_client::codec::decode_subscribe;
use relay_client::codec::encode_auth;
use relay_client::codec::encode_pong;
use relay_client::codec::encode_subscribe;
use relay_client::codec::DecodeError;
use relay_client::codec::InboundFrame;
use relay_client::messages::AuthStruct;
use relay_client::messages::PongStruct;
use relay_client::messages::RelayConfig;
use relay_client::messages::SubscribeStruct;

fn config() -> RelayConfig {
    RelayConfig {
        key: "k".to_string(),
        secret: "s".to_string(),
        bucket: "my-bucket".to_string(),
    }
}

#[test]
fn encode_auth_exact() {
    let a = AuthStruct::from_config(&config());
    assert_eq!(encode_auth(&a), "{\"action\":\"auth\",\"key\":\"k\",\"secret\":\"s\"}");
}

#[test]
fn encode_pong_exact() {
    assert_eq!(encode_pong(&PongStruct::new()), "{\"action\":\"pong\"}");
}

#[test]
fn encode_subscribe_exact() {
    let sub = SubscribeStruct::new(&"my-bucket".to_string());
    assert_eq!(
        encode_subscribe(&sub),
        "{\"action\":\"subscribe\",\"buckets\":[\"my-bucket\"]}"
    );
}

#[test]
fn round_trip_auth() {
    let a = AuthStruct::from_config(&config());
    let text = encode_auth(&a);
    let back = decode_auth(&text).unwrap();
    assert_eq!(back.action, a.action);
    assert_eq!(back.key, a.key);
    assert_eq!(back.secret, a.secret);
}

#[test]
fn round_trip_auth_special_chars() {
    let a = AuthStruct {
        action: "auth".to_string(),
        key: "k\"quoted\\slash".to_string(),
        secret: "line\nbreak\ttab\rret".to_string(),
    };
    let text = encode_auth(&a);
    let back = decode_auth(&text).unwrap();
    assert_eq!(back.action, a.action);
    assert_eq!(back.key, a.key);
    assert_eq!(back.secret, a.secret);
}

#[test]
fn round_trip_pong() {
    let p = PongStruct::new();
    let back = decode_pong(&encode_pong(&p)).unwrap();
    assert_eq!(back.action, p.action);
}

#[test]
fn round_trip_subscribe() {
    let sub = SubscribeStruct::new(&"bucket \"x\"\\y".to_string());
    let back = decode_subscribe(&encode_subscribe(&sub)).unwrap();
    assert_eq!(back.action, sub.action);
    assert_eq!(back.buckets, sub.buckets);
}

#[test]
fn decode_event_reads_discriminator() {
    let ev = decode_event("{\"type\":\"status\",\"status\":\"ping\",\"message\":\"\"}").unwrap();
    assert_eq!(ev.event_type, "status");
}

#[test]
fn decode_status_frame() {
    let text = "{\"type\":\"status\",\"status\":\"authenticated\",\"message\":\"welcome\"}";
    match decode_frame(text).unwrap() {
        InboundFrame::Status(st) => {
            assert_eq!(st.event_type, "status");
            assert_eq!(st.status, "authenticated");
            assert_eq!(st.message, "welcome");
        }
        InboundFrame::Webhook(_) => panic!("status frame decoded as webhook"),
    }
}

#[test]
fn decode_tolerates_whitespace() {
    let text = " {\n  \"type\" : \"status\" ,\n  \"status\" : \"ping\" ,\n  \"message\" : \"\"\n} ";
    match decode_frame(text).unwrap() {
        InboundFrame::Status(st) => assert_eq!(st.status, "ping"),
        InboundFrame::Webhook(_) => panic!("status frame decoded as webhook"),
    }
}

#[test]
fn decode_unescapes_message() {
    let text = "{\"type\":\"status\",\"status\":\"x\",\"message\":\"a\\n\\tb\\\\c\\\"d\\/e\"}";
    match decode_frame(text).unwrap() {
        InboundFrame::Status(st) => assert_eq!(st.message, "a\n\tb\\c\"d/e"),
        InboundFrame::Webhook(_) => panic!("status frame decoded as webhook"),
    }
}

#[test]
fn decode_webhook_frame() {
    let text = "{\"type\":\"webhook\",\"meta\":{\"bucket_id\":\"b1\",\"output_name\":\"111\",\"output_destination\":\"http://localhost:8080/x\"},\"headers\":{\"Content-Type\":[\"application/json\"]},\"query\":\"foo=bar\",\"body\":\"{\\\"hi\\\":\\\"there\\\"}\",\"method\":\"PUT\"}";
    match decode_frame(text).unwrap() {
        InboundFrame::Webhook(w) => {
            assert_eq!(w.event_type, "webhook");
            assert_eq!(w.method, "PUT");
            assert_eq!(w.body, "{\"hi\":\"there\"}");
            assert_eq!(w.meta.output_destination, "http://localhost:8080/x");
            assert_eq!(w.meta.output_name, "111");
        }
        InboundFrame::Status(_) => panic!("webhook frame decoded as status"),
    }
}

#[test]
fn malformed_json_is_fatal() {
    assert_eq!(decode_frame("{\"type\":").unwrap_err(), DecodeError::Malformed);
    assert_eq!(decode_frame("").unwrap_err(), DecodeError::Malformed);
    assert_eq!(decode_frame("[1,2]").unwrap_err(), DecodeError::Malformed);
    assert_eq!(
        decode_frame("{\"type\":\"status\"} trailing").unwrap_err(),
        DecodeError::Malformed
    );
}

#[test]
fn missing_discriminator_is_fatal() {
    assert_eq!(
        decode_frame("{\"status\":\"ping\",\"message\":\"\"}").unwrap_err(),
        DecodeError::MissingField
    );
}

#[test]
fn missing_required_field_is_fatal() {
    assert_eq!(
        decode_frame("{\"type\":\"status\",\"status\":\"ping\"}").unwrap_err(),
        DecodeError::MissingField
    );
    assert_eq!(
        decode_frame("{\"type\":\"webhook\",\"body\":\"\",\"method\":\"GET\"}").unwrap_err(),
        DecodeError::MissingField
    );
}

#[test]
fn unknown_discriminator_is_fatal() {
    assert_eq!(
        decode_frame("{\"type\":\"mystery\"}").unwrap_err(),
        DecodeError::UnknownType
    );
}

#[test]
fn invalid_method_is_fatal() {
    let text = "{\"type\":\"webhook\",\"meta\":{\"output_name\":\"n\",\"output_destination\":\"http://localhost:8080\"},\"body\":\"\",\"method\":\"P UT\"}";
    assert_eq!(decode_frame(text).unwrap_err(), DecodeError::BadMethod);
}

#[test]
fn invalid_destination_is_fatal() {
    let text = "{\"type\":\"webhook\",\"meta\":{\"output_name\":\"n\",\"output_destination\":\"not a url\"},\"body\":\"\",\"method\":\"PUT\"}";
    assert_eq!(decode_frame(text).unwrap_err(), DecodeError::BadUrl);
}

#[test]
fn relative_destination_is_fatal() {
    let text = "{\"type\":\"webhook\",\"meta\":{\"output_name\":\"n\",\"output_destination\":\"/relative/path\"},\"body\":\"\",\"method\":\"GET\"}";
    assert_eq!(decode_frame(text).unwrap_err(), DecodeError::BadUrl);
}

#[test]
fn scalar_fields_are_tolerated() {
    let text = "{\"type\":\"status\",\"status\":\"ping\",\"message\":\"m\",\"n\":-12.5e+3,\"z\":0,\"b\":true,\"f\":false,\"x\":null}";
    match decode_frame(text).unwrap() {
        InboundFrame::Status(st) => assert_eq!(st.status, "ping"),
        InboundFrame::Webhook(_) => panic!("status frame decoded as webhook"),
    }
}

#[test]
fn invalid_scalar_literals_are_fatal() {
    assert_eq!(
        decode_frame("{\"type\":\"status\",\"status\":\"ping\",\"message\":\"m\",\"x\":--}")
            .unwrap_err(),
        DecodeError::Malformed
    );
    assert_eq!(
        decode_frame("{\"type\":\"status\",\"status\":\"ping\",\"message\":\"m\",\"x\":tru}")
            .unwrap_err(),
        DecodeError::Malformed
    );
    assert_eq!(
        decode_frame("{\"type\":\"status\",\"status\":\"ping\",\"message\":\"m\",\"x\":01}")
            .unwrap_err(),
        DecodeError::Malformed
    );
    assert_eq!(
        decode_frame("{\"type\":\"status\",\"status\":\"ping\",\"message\":\"m\",\"x\":1.}")
            .unwrap_err(),
        DecodeError::Malformed
    );
}

#[test]
fn raw_control_character_in_string_is_fatal() {
    let text = "{\"type\":\"status\",\"status\":\"a\",\"message\":\"b\u{1}c\"}";
    assert_eq!(decode_frame(text).unwrap_err(), DecodeError::Malformed);
}

#[test]
fn unicode_escapes_are_decoded() {
    let text = "{\"type\":\"status\",\"status\":\"x\",\"message\":\"\\u0041\\u00e9\\u20AC\"}";
    match decode_frame(text).unwrap() {
        InboundFrame::Status(st) => assert_eq!(st.message, "A\u{e9}\u{20ac}"),
        InboundFrame::Webhook(_) => panic!("status frame decoded as webhook"),
    }
}

#[test]
fn surrogate_pairs_are_decoded() {
    let text = "{\"type\":\"status\",\"status\":\"x\",\"message\":\"\\uD83D\\uDE00\"}";
    match decode_frame(text).unwrap() {
        InboundFrame::Status(st) => assert_eq!(st.message, "\u{1F600}"),
        InboundFrame::Webhook(_) => panic!("status frame decoded as webhook"),
    }
}

#[test]
fn bad_unicode_escapes_are_fatal() {
    let lone_high = "{\"type\":\"status\",\"status\":\"x\",\"message\":\"\\uD83D\"}";
    assert_eq!(decode_frame(lone_high).unwrap_err(), DecodeError::Malformed);
    let lone_low = "{\"type\":\"status\",\"status\":\"x\",\"message\":\"\\uDE00\"}";
    assert_eq!(decode_frame(lone_low).unwrap_err(), DecodeError::Malformed);
    let bad_hex = "{\"type\":\"status\",\"status\":\"x\",\"message\":\"\\uZZZZ\"}";
    assert_eq!(decode_frame(bad_hex).unwrap_err(), DecodeError::Malformed);
}

#[test]
fn control_characters_are_escaped_on_the_wire() {
    let a = AuthStruct {
        action: "auth".to_string(),
        key: "k".to_string(),
        secret: "a\u{1}b\u{8}c\u{c}d\u{1f}e".to_string(),
    };
    assert_eq!(
        encode_auth(&a),
        "{\"action\":\"auth\",\"key\":\"k\",\"secret\":\"a\\u0001b\\bc\\fd\\u001fe\"}"
    );
    let back = decode_auth(&encode_auth(&a)).unwrap();
    assert_eq!(back.secret, a.secret);
}

#[test]
fn round_trip_non_ascii() {
    let a = AuthStruct {
        action: "auth".to_string(),
        key: "cl\u{e9}".to_string(),
        secret: "\u{1F600}\u{20ac}".to_string(),
    };
    let back = decode_auth(&encode_auth(&a)).unwrap();
    assert_eq!(back.key, a.key);
    assert_eq!(back.secret, a.secret);
}
