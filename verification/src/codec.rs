//! The message codec: how each outbound control message is printed, and how
//! an inbound frame is decoded, in two stages, into its full shape.
//!
//! The specification functions here say exactly which character sequence an
//! encoder yields and which fields a well-formed frame holds; the decoders'
//! contracts state success and each error as an if-and-only-if.

use vstd::prelude::*;

use crate::check_method_token;
use crate::check_url;
use crate::is_method_token;
use crate::json::chars_to_string;
use crate::json::find_field;
use crate::json::parse_string;
use crate::json::parse_string_list;
use crate::json::push_char;
use crate::json::push_quoted;
use crate::json::skip_value;
use crate::json::skip_ws;
use crate::json::sp_find_field;
use crate::json::sp_parse_string;
use crate::json::sp_parse_string_list;
use crate::json::sp_quote;
use crate::json::sp_skip_value;
use crate::json::sp_skip_ws;
use crate::json::str_to_chars;
use crate::messages::AuthStruct;
use crate::messages::EventStruct;
use crate::messages::PongStruct;
use crate::messages::StatusStruct;
use crate::messages::SubscribeStruct;
use crate::messages::WebhookMetadata;
use crate::messages::WebhookStruct;
use crate::url_is_valid;

verus! {

/// One object member as printed: quoted key, colon, quoted string value.
pub open spec fn sp_member(k: Seq<char>, v: Seq<char>) -> Seq<char> {
    sp_quote(k) + seq![':'] + sp_quote(v)
}

/// A one-element array of strings as printed.
pub open spec fn sp_list1(x: Seq<char>) -> Seq<char> {
    seq!['['] + sp_quote(x) + seq![']']
}

/// The auth message on the wire.
pub open spec fn sp_encode_auth(action: Seq<char>, key: Seq<char>, secret: Seq<char>) -> Seq<
    char,
> {
    seq!['{'] + sp_member("action"@, action) + seq![','] + sp_member("key"@, key) + seq![',']
        + sp_member("secret"@, secret) + seq!['}']
}

/// The pong message on the wire.
pub open spec fn sp_encode_pong(action: Seq<char>) -> Seq<char> {
    seq!['{'] + sp_member("action"@, action) + seq!['}']
}

/// The subscribe message on the wire, naming one bucket.
pub open spec fn sp_encode_subscribe(action: Seq<char>, bucket: Seq<char>) -> Seq<char> {
    seq!['{'] + sp_member("action"@, action) + seq![','] + sp_quote("buckets"@) + seq![':']
        + sp_list1(bucket) + seq!['}']
}

/// Prints the auth message.
pub fn encode_auth(a: &AuthStruct) -> (r: String)
    ensures
        r@ == sp_encode_auth(a.action@, a.key@, a.secret@),
{
    let mut out: Vec<char> = Vec::new();
    push_char(&mut out, '{');
    let k1 = str_to_chars("action");
    push_quoted(&mut out, &k1);
    push_char(&mut out, ':');
    let v1 = str_to_chars(a.action.as_str());
    push_quoted(&mut out, &v1);
    push_char(&mut out, ',');
    let k2 = str_to_chars("key");
    push_quoted(&mut out, &k2);
    push_char(&mut out, ':');
    let v2 = str_to_chars(a.key.as_str());
    push_quoted(&mut out, &v2);
    push_char(&mut out, ',');
    let k3 = str_to_chars("secret");
    push_quoted(&mut out, &k3);
    push_char(&mut out, ':');
    let v3 = str_to_chars(a.secret.as_str());
    push_quoted(&mut out, &v3);
    push_char(&mut out, '}');
    proof {
        assert(out@ =~= sp_encode_auth(a.action@, a.key@, a.secret@));
    }
    chars_to_string(&out)
}

/// Prints the pong message.
pub fn encode_pong(p: &PongStruct) -> (r: String)
    ensures
        r@ == sp_encode_pong(p.action@),
{
    let mut out: Vec<char> = Vec::new();
    push_char(&mut out, '{');
    let k1 = str_to_chars("action");
    push_quoted(&mut out, &k1);
    push_char(&mut out, ':');
    let v1 = str_to_chars(p.action.as_str());
    push_quoted(&mut out, &v1);
    push_char(&mut out, '}');
    proof {
        assert(out@ =~= sp_encode_pong(p.action@));
    }
    chars_to_string(&out)
}

/// Prints the subscribe message.
pub fn encode_subscribe(a: &SubscribeStruct) -> (r: String)
    requires
        a.wf(),
    ensures
        r@ == sp_encode_subscribe(a.action@, a.buckets@[0]@),
{
    let mut out: Vec<char> = Vec::new();
    push_char(&mut out, '{');
    let k1 = str_to_chars("action");
    push_quoted(&mut out, &k1);
    push_char(&mut out, ':');
    let v1 = str_to_chars(a.action.as_str());
    push_quoted(&mut out, &v1);
    push_char(&mut out, ',');
    let k2 = str_to_chars("buckets");
    push_quoted(&mut out, &k2);
    push_char(&mut out, ':');
    push_char(&mut out, '[');
    let b = str_to_chars(a.buckets[0].as_str());
    push_quoted(&mut out, &b);
    push_char(&mut out, ']');
    push_char(&mut out, '}');
    proof {
        assert(out@ =~= sp_encode_subscribe(a.action@, a.buckets@[0]@));
    }
    chars_to_string(&out)
}

/// Index of the frame's first token.
pub open spec fn sp_top(s: Seq<char>) -> int {
    sp_skip_ws(s, 0)
}

/// A well-formed frame: one JSON object and nothing after it.
pub open spec fn sp_frame_wf(s: Seq<char>) -> bool {
    &&& sp_top(s) < s.len()
    &&& s[sp_top(s)] == '{'
    &&& (match sp_skip_value(s, 0) {
        Some(e) => sp_skip_ws(s, e) == s.len(),
        None => false,
    })
}

/// The content of the string standing at `p`, if one does.
pub open spec fn sp_string_at(s: Seq<char>, p: int) -> Option<Seq<char>> {
    match sp_parse_string(s, p) {
        Some((x, _)) => Some(x),
        None => None,
    }
}

/// Where the value of the member `key` of the object at `obj` starts.
pub open spec fn sp_obj_field_pos(s: Seq<char>, obj: int, key: Seq<char>) -> Option<int> {
    if 0 <= obj < s.len() && s[obj] == '{' {
        sp_find_field(s, obj + 1, key)
    } else {
        None
    }
}

/// The string value of the member `key` of the object at `obj`.
pub open spec fn sp_obj_string_field(s: Seq<char>, obj: int, key: Seq<char>) -> Option<Seq<char>> {
    match sp_obj_field_pos(s, obj, key) {
        Some(p) => sp_string_at(s, p),
        None => None,
    }
}

/// The string value of the top-level member `key` of the frame.
pub open spec fn sp_field(s: Seq<char>, key: Seq<char>) -> Option<Seq<char>> {
    sp_obj_string_field(s, sp_top(s), key)
}

/// The string value of the member `key` inside the frame's `meta` object.
pub open spec fn sp_meta_field(s: Seq<char>, key: Seq<char>) -> Option<Seq<char>> {
    match sp_obj_field_pos(s, sp_top(s), "meta"@) {
        Some(p) => sp_obj_string_field(s, p, key),
        None => None,
    }
}

/// The list-of-strings value of the top-level member `key` of the frame.
pub open spec fn sp_list_field(s: Seq<char>, key: Seq<char>) -> Option<Seq<Seq<char>>> {
    match sp_obj_field_pos(s, sp_top(s), key) {
        Some(p) => match sp_parse_string_list(s, p) {
            Some((xs, _)) => Some(xs),
            None => None,
        },
        None => None,
    }
}

/// Whether the characters form a well-formed frame.
pub fn check_frame(v: &Vec<char>) -> (r: bool)
    ensures
        r == sp_frame_wf(v@),
{
    let t = skip_ws(v, 0);
    if !(t < v.len() && v[t] == '{') {
        return false;
    }
    match skip_value(v, 0) {
        Some(e) => skip_ws(v, e) == v.len(),
        None => false,
    }
}

/// The string value of a top-level member.
pub fn get_field(v: &Vec<char>, key: &Vec<char>) -> (r: Option<String>)
    ensures
        match r {
            Some(x) => sp_field(v@, key@) == Some(x@),
            None => sp_field(v@, key@) is None,
        },
{
    let t = skip_ws(v, 0);
    if !(t < v.len() && v[t] == '{') {
        return None;
    }
    match find_field(v, t + 1, key) {
        None => None,
        Some(p) => match parse_string(v, p) {
            Some((cs, _)) => Some(chars_to_string(&cs)),
            None => None,
        },
    }
}

/// The string value of a member of the frame's `meta` object.
pub fn get_meta_field(v: &Vec<char>, key: &Vec<char>) -> (r: Option<String>)
    ensures
        match r {
            Some(x) => sp_meta_field(v@, key@) == Some(x@),
            None => sp_meta_field(v@, key@) is None,
        },
{
    let t = skip_ws(v, 0);
    if !(t < v.len() && v[t] == '{') {
        return None;
    }
    let meta_key = str_to_chars("meta");
    match find_field(v, t + 1, &meta_key) {
        None => None,
        Some(p) => {
            if !(p < v.len() && v[p] == '{') {
                return None;
            }
            match find_field(v, p + 1, key) {
                None => None,
                Some(q) => match parse_string(v, q) {
                    Some((cs, _)) => Some(chars_to_string(&cs)),
                    None => None,
                },
            }
        },
    }
}

/// The list-of-strings value of a top-level member.
pub fn get_list_field(v: &Vec<char>, key: &Vec<char>) -> (r: Option<Vec<String>>)
    ensures
        match r {
            Some(xs) => {
                &&& sp_list_field(v@, key@) matches Some(g)
                &&& xs@.len() == g.len()
                &&& forall|t: int| 0 <= t < g.len() ==> xs@[t]@ == g[t]
            },
            None => sp_list_field(v@, key@) is None,
        },
{
    let t = skip_ws(v, 0);
    if !(t < v.len() && v[t] == '{') {
        return None;
    }
    match find_field(v, t + 1, key) {
        None => None,
        Some(p) => match parse_string_list(v, p) {
            Some((xs, _)) => Some(xs),
            None => None,
        },
    }
}

/// Why an inbound frame was rejected.  Every decode failure is fatal to the
/// session; the variants say what was wrong.
#[derive(Clone, Copy, PartialEq, Eq, Structural, Debug)]
pub enum DecodeError {
    /// The text is not one well-formed JSON object.
    Malformed,
    /// A field the selected shape requires is absent or not a string.
    MissingField,
    /// The `type` discriminator holds a value no shape answers to.
    UnknownType,
    /// A webhook's method is not a valid HTTP method token.
    BadMethod,
    /// A webhook's destination is not a valid absolute URL.
    BadUrl,
}

/// An inbound frame once its shape is known.
#[derive(Debug)]
pub enum InboundFrame {
    Status(StatusStruct),
    Webhook(WebhookStruct),
}

/// The fields a status frame requires, all present as strings.
pub open spec fn status_complete(t: Seq<char>) -> bool {
    &&& sp_field(t, "type"@) is Some
    &&& sp_field(t, "status"@) is Some
    &&& sp_field(t, "message"@) is Some
}

/// `st` holds exactly the status fields of the frame.
pub open spec fn status_fields(t: Seq<char>, st: StatusStruct) -> bool {
    &&& sp_field(t, "type"@) == Some(st.event_type@)
    &&& sp_field(t, "status"@) == Some(st.status@)
    &&& sp_field(t, "message"@) == Some(st.message@)
}

/// The fields a webhook frame requires, all present as strings.
pub open spec fn webhook_complete(t: Seq<char>) -> bool {
    &&& sp_field(t, "type"@) is Some
    &&& sp_field(t, "body"@) is Some
    &&& sp_field(t, "method"@) is Some
    &&& sp_meta_field(t, "output_destination"@) is Some
    &&& sp_meta_field(t, "output_name"@) is Some
}

/// `w` holds exactly the webhook fields of the frame.
pub open spec fn webhook_fields(t: Seq<char>, w: WebhookStruct) -> bool {
    &&& sp_field(t, "type"@) == Some(w.event_type@)
    &&& sp_field(t, "body"@) == Some(w.body@)
    &&& sp_field(t, "method"@) == Some(w.method@)
    &&& sp_meta_field(t, "output_destination"@) == Some(w.meta.output_destination@)
    &&& sp_meta_field(t, "output_name"@) == Some(w.meta.output_name@)
}

/// First decode stage: only the discriminator is read.
pub fn decode_event(s: &str) -> (r: Result<EventStruct, DecodeError>)
    ensures
        r matches Ok(ev) ==> sp_frame_wf(s@) && sp_field(s@, "type"@) == Some(ev.event_type@),
        r == Err::<EventStruct, DecodeError>(DecodeError::Malformed) <==> !sp_frame_wf(s@),
        r == Err::<EventStruct, DecodeError>(DecodeError::MissingField) <==> (sp_frame_wf(s@)
            && sp_field(s@, "type"@) is None),
        r is Err ==> r == Err::<EventStruct, DecodeError>(DecodeError::Malformed) || r == Err::<
            EventStruct,
            DecodeError,
        >(DecodeError::MissingField),
{
    let v = str_to_chars(s);
    if !check_frame(&v) {
        return Err(DecodeError::Malformed);
    }
    let key = str_to_chars("type");
    match get_field(&v, &key) {
        Some(x) => Ok(EventStruct { event_type: x }),
        None => Err(DecodeError::MissingField),
    }
}

/// Second decode stage for status frames.
pub fn decode_status(s: &str) -> (r: Result<StatusStruct, DecodeError>)
    ensures
        r matches Ok(st) ==> sp_frame_wf(s@) && status_complete(s@) && status_fields(s@, st),
        r is Ok <==> sp_frame_wf(s@) && status_complete(s@),
        r == Err::<StatusStruct, DecodeError>(DecodeError::Malformed) <==> !sp_frame_wf(s@),
        r == Err::<StatusStruct, DecodeError>(DecodeError::MissingField) <==> (sp_frame_wf(s@)
            && !status_complete(s@)),
{
    let v = str_to_chars(s);
    if !check_frame(&v) {
        return Err(DecodeError::Malformed);
    }
    let tkey = str_to_chars("type");
    let skey = str_to_chars("status");
    let mkey = str_to_chars("message");
    let ty = get_field(&v, &tkey);
    let st = get_field(&v, &skey);
    let msg = get_field(&v, &mkey);
    match (ty, st, msg) {
        (Some(event_type), Some(status), Some(message)) => Ok(
            StatusStruct { event_type, status, message },
        ),
        _ => Err(DecodeError::MissingField),
    }
}

/// Second decode stage for webhook frames.  The method must be a valid HTTP
/// method token and the destination a valid absolute URL; a violation is a
/// decode error, as for any other malformed frame.
pub fn decode_webhook(s: &str) -> (r: Result<WebhookStruct, DecodeError>)
    ensures
        r matches Ok(w) ==> sp_frame_wf(s@) && webhook_complete(s@) && webhook_fields(s@, w)
            && is_method_token(w.method@) && url_is_valid(w.meta.output_destination@),
        r is Ok <==> sp_frame_wf(s@) && webhook_complete(s@) && (sp_field(s@, "method"@) matches
            Some(m) && is_method_token(m)) && (sp_meta_field(s@, "output_destination"@) matches Some(
            u,
        ) && url_is_valid(u)),
        r == Err::<WebhookStruct, DecodeError>(DecodeError::Malformed) <==> !sp_frame_wf(s@),
        r == Err::<WebhookStruct, DecodeError>(DecodeError::MissingField) <==> (sp_frame_wf(s@)
            && !webhook_complete(s@)),
        r == Err::<WebhookStruct, DecodeError>(DecodeError::BadMethod) <==> (sp_frame_wf(s@)
            && webhook_complete(s@) && (sp_field(s@, "method"@) matches Some(m)
            && !is_method_token(m))),
        r == Err::<WebhookStruct, DecodeError>(DecodeError::BadUrl) <==> (sp_frame_wf(s@)
            && webhook_complete(s@) && (sp_field(s@, "method"@) matches Some(m) && is_method_token(
            m,
        )) && (sp_meta_field(s@, "output_destination"@) matches Some(u) && !url_is_valid(u))),
{
    let v = str_to_chars(s);
    if !check_frame(&v) {
        return Err(DecodeError::Malformed);
    }
    let tkey = str_to_chars("type");
    let bkey = str_to_chars("body");
    let mkey = str_to_chars("method");
    let dkey = str_to_chars("output_destination");
    let nkey = str_to_chars("output_name");
    let ty = get_field(&v, &tkey);
    let body = get_field(&v, &bkey);
    let method = get_field(&v, &mkey);
    let dest = get_meta_field(&v, &dkey);
    let name = get_meta_field(&v, &nkey);
    match (ty, body, method, dest, name) {
        (Some(event_type), Some(body), Some(method), Some(output_destination), Some(
            output_name,
        )) => {
            if !check_method_token(method.as_str()) {
                return Err(DecodeError::BadMethod);
            }
            if !check_url(output_destination.as_str()) {
                return Err(DecodeError::BadUrl);
            }
            Ok(
                WebhookStruct {
                    meta: WebhookMetadata { output_name, output_destination },
                    event_type,
                    body,
                    method,
                },
            )
        },
        _ => Err(DecodeError::MissingField),
    }
}

/// Decodes one inbound frame: the discriminator first, then the full shape.
pub fn decode_frame(s: &str) -> (r: Result<InboundFrame, DecodeError>)
    ensures
        r matches Ok(f) ==> match f {
            InboundFrame::Status(st) => sp_field(s@, "type"@) == Some("status"@) && sp_frame_wf(s@)
                && status_fields(s@, st),
            InboundFrame::Webhook(w) => sp_field(s@, "type"@) == Some("webhook"@) && sp_frame_wf(
                s@,
            ) && webhook_fields(s@, w) && is_method_token(w.method@) && url_is_valid(
                w.meta.output_destination@,
            ),
        },
        r == Err::<InboundFrame, DecodeError>(DecodeError::Malformed) <==> !sp_frame_wf(s@),
        r == Err::<InboundFrame, DecodeError>(DecodeError::UnknownType) <==> (sp_frame_wf(s@) && (
        sp_field(s@, "type"@) matches Some(ty) && ty != "status"@ && ty != "webhook"@)),
        r == Err::<InboundFrame, DecodeError>(DecodeError::MissingField) <==> (sp_frame_wf(s@) && (
        sp_field(s@, "type"@) is None || (sp_field(s@, "type"@) == Some("status"@)
            && !status_complete(s@)) || (sp_field(s@, "type"@) == Some("webhook"@)
            && !webhook_complete(s@)))),
        r == Err::<InboundFrame, DecodeError>(DecodeError::BadMethod) <==> (sp_frame_wf(s@)
            && sp_field(s@, "type"@) == Some("webhook"@) && webhook_complete(s@) && (sp_field(
            s@,
            "method"@,
        ) matches Some(m) && !is_method_token(m))),
        r == Err::<InboundFrame, DecodeError>(DecodeError::BadUrl) <==> (sp_frame_wf(s@)
            && sp_field(s@, "type"@) == Some("webhook"@) && webhook_complete(s@) && (sp_field(
            s@,
            "method"@,
        ) matches Some(m) && is_method_token(m)) && (sp_meta_field(
            s@,
            "output_destination"@,
        ) matches Some(u) && !url_is_valid(u))),
{
    proof {
        reveal_strlit("status");
        reveal_strlit("webhook");
        assert("status"@.len() == 6);
        assert("webhook"@.len() == 7);
        assert("status"@ != "webhook"@);
    }
    let ev = match decode_event(s) {
        Ok(ev) => ev,
        Err(e) => {
            return Err(e);
        },
    };
    if ev.event_type == "status".to_owned() {
        match decode_status(s) {
            Ok(st) => Ok(InboundFrame::Status(st)),
            Err(e) => Err(e),
        }
    } else if ev.event_type == "webhook".to_owned() {
        match decode_webhook(s) {
            Ok(w) => Ok(InboundFrame::Webhook(w)),
            Err(e) => Err(e),
        }
    } else {
        Err(DecodeError::UnknownType)
    }
}

} // verus!

verus! {

/// Reads an auth message back from its printed form.
pub fn decode_auth(s: &str) -> (r: Result<AuthStruct, DecodeError>)
    ensures
        r matches Ok(a) ==> sp_frame_wf(s@) && sp_field(s@, "action"@) == Some(a.action@)
            && sp_field(s@, "key"@) == Some(a.key@) && sp_field(s@, "secret"@) == Some(a.secret@),
        r is Ok <==> sp_frame_wf(s@) && sp_field(s@, "action"@) is Some && sp_field(s@, "key"@)
            is Some && sp_field(s@, "secret"@) is Some,
        r == Err::<AuthStruct, DecodeError>(DecodeError::Malformed) <==> !sp_frame_wf(s@),
        r == Err::<AuthStruct, DecodeError>(DecodeError::MissingField) <==> (sp_frame_wf(s@) && (
        sp_field(s@, "action"@) is None || sp_field(s@, "key"@) is None || sp_field(s@, "secret"@)
            is None)),
{
    let v = str_to_chars(s);
    if !check_frame(&v) {
        return Err(DecodeError::Malformed);
    }
    let akey = str_to_chars("action");
    let kkey = str_to_chars("key");
    let skey = str_to_chars("secret");
    let action = get_field(&v, &akey);
    let key = get_field(&v, &kkey);
    let secret = get_field(&v, &skey);
    match (action, key, secret) {
        (Some(action), Some(key), Some(secret)) => Ok(AuthStruct { action, key, secret }),
        _ => Err(DecodeError::MissingField),
    }
}

/// Reads a pong message back from its printed form.
pub fn decode_pong(s: &str) -> (r: Result<PongStruct, DecodeError>)
    ensures
        r matches Ok(p) ==> sp_frame_wf(s@) && sp_field(s@, "action"@) == Some(p.action@),
        r is Ok <==> sp_frame_wf(s@) && sp_field(s@, "action"@) is Some,
        r == Err::<PongStruct, DecodeError>(DecodeError::Malformed) <==> !sp_frame_wf(s@),
        r == Err::<PongStruct, DecodeError>(DecodeError::MissingField) <==> (sp_frame_wf(s@)
            && sp_field(s@, "action"@) is None),
{
    let v = str_to_chars(s);
    if !check_frame(&v) {
        return Err(DecodeError::Malformed);
    }
    let akey = str_to_chars("action");
    match get_field(&v, &akey) {
        Some(action) => Ok(PongStruct { action }),
        None => Err(DecodeError::MissingField),
    }
}

/// Reads a subscribe message back from its printed form.
pub fn decode_subscribe(s: &str) -> (r: Result<SubscribeStruct, DecodeError>)
    ensures
        r matches Ok(a) ==> sp_frame_wf(s@) && sp_field(s@, "action"@) == Some(a.action@) && (
        sp_list_field(s@, "buckets"@) matches Some(g) && a.buckets@.len() == g.len() && forall|
            t: int,
        |
            0 <= t < g.len() ==> a.buckets@[t]@ == g[t]),
        r is Ok <==> sp_frame_wf(s@) && sp_field(s@, "action"@) is Some && sp_list_field(
            s@,
            "buckets"@,
        ) is Some,
        r == Err::<SubscribeStruct, DecodeError>(DecodeError::Malformed) <==> !sp_frame_wf(s@),
        r == Err::<SubscribeStruct, DecodeError>(DecodeError::MissingField) <==> (sp_frame_wf(s@)
            && (sp_field(s@, "action"@) is None || sp_list_field(s@, "buckets"@) is None)),
{
    let v = str_to_chars(s);
    if !check_frame(&v) {
        return Err(DecodeError::Malformed);
    }
    let akey = str_to_chars("action");
    let bkey = str_to_chars("buckets");
    let action = get_field(&v, &akey);
    let buckets = get_list_field(&v, &bkey);
    match (action, buckets) {
        (Some(action), Some(buckets)) => Ok(SubscribeStruct { action, buckets }),
        _ => Err(DecodeError::MissingField),
    }
}

} // verus!
