//! Round-trip laws for the outbound messages: a frame printed by the codec
//! is a well-formed frame, and reading its fields back yields exactly the
//! values that were printed.  Together with the decoders' contracts this says
//! that encoding then decoding an auth, subscribe or pong message returns the
//! original record.

use vstd::prelude::*;

use crate::codec::sp_encode_auth;
use crate::codec::sp_encode_pong;
use crate::codec::sp_encode_subscribe;
use crate::codec::sp_field;
use crate::codec::sp_frame_wf;
use crate::codec::sp_list1;
use crate::codec::sp_list_field;
use crate::codec::sp_string_at;
use crate::codec::sp_top;
use crate::json::has_short_escape;
use crate::json::is_ctrl;
use crate::json::is_ws;
use crate::json::sp_escape;
use crate::json::sp_escape_char;
use crate::json::sp_escape_code;
use crate::json::sp_find_field;
use crate::json::sp_hex4;
use crate::json::sp_hex_digit;
use crate::json::sp_hex_val;
use crate::json::sp_u_escape;
use crate::json::sp_parse_str_body;
use crate::json::sp_parse_string;
use crate::json::sp_parse_string_list;
use crate::json::sp_quote;
use crate::json::sp_skip_elems;
use crate::json::sp_skip_members;
use crate::json::sp_skip_value;
use crate::json::sp_skip_ws;
use crate::json::sp_unescape_char;

verus! {

/// Parsing a printed string body undoes the escaping.
pub proof fn lemma_parse_body_escaped(pre: Seq<char>, s: Seq<char>, post: Seq<char>, acc: Seq<char>)
    ensures
        ({
            let full = pre + sp_escape(s) + seq!['"'] + post;
            sp_parse_str_body(full, pre.len() as int, acc) == Some(
                (acc + s, (pre.len() + sp_escape(s).len() + 1) as int),
            )
        }),
    decreases s.len(),
{
    let full = pre + sp_escape(s) + seq!['"'] + post;
    if s.len() == 0 {
        assert(sp_escape(s) == Seq::<char>::empty());
        assert(full[pre.len() as int] == '"');
        assert(acc + s =~= acc);
    } else {
        let c = s[0];
        let rest = s.subrange(1, s.len() as int);
        assert(sp_escape(s) == sp_escape_char(c) + sp_escape(rest));
        if has_short_escape(c) {
            assert(full[pre.len() as int] == '\\');
            assert(full[pre.len() as int + 1] == sp_escape_code(c));
            assert(sp_escape_code(c) != 'u');
            assert(sp_unescape_char(sp_escape_code(c)) == Some(c));
            let pre2 = pre + seq!['\\', sp_escape_code(c)];
            lemma_parse_body_escaped(pre2, rest, post, acc.push(c));
            assert(pre2 + sp_escape(rest) + seq!['"'] + post =~= full);
            assert(acc.push(c) + rest =~= acc + s);
        } else if is_ctrl(c) {
            let u = (c as u32) as int;
            let hi = u / 16;
            let lo = u % 16;
            assert(u < 0x20);
            assert(u == 16 * hi + lo && 0 <= hi < 2 && 0 <= lo < 16);
            let i = pre.len() as int;
            assert(full[i] == '\\');
            assert(full[i + 1] == 'u');
            assert(full[i + 2] == '0');
            assert(full[i + 3] == '0');
            assert(full[i + 4] == sp_hex_digit(hi));
            assert(full[i + 5] == sp_hex_digit(lo));
            assert(sp_hex_val(sp_hex_digit(hi)) == Some(hi));
            assert(sp_hex_val(sp_hex_digit(lo)) == Some(lo));
            assert(sp_hex4(full, i + 2) == Some(u));
            vstd::utf8::char_u32_cast(c, c as u32);
            assert(((u as u32) as char) == c);
            assert(sp_u_escape(full, i) == Some((c, i + 6)));
            let pre2 = pre + sp_escape_char(c);
            lemma_parse_body_escaped(pre2, rest, post, acc.push(c));
            assert(pre2 + sp_escape(rest) + seq!['"'] + post =~= full);
            assert(acc.push(c) + rest =~= acc + s);
        } else {
            assert(full[pre.len() as int] == c);
            assert(c != '"' && c != '\\');
            assert(!is_ctrl(c));
            let pre2 = pre + seq![c];
            lemma_parse_body_escaped(pre2, rest, post, acc.push(c));
            assert(pre2 + sp_escape(rest) + seq!['"'] + post =~= full);
            assert(acc.push(c) + rest =~= acc + s);
        }
    }
}

/// Parsing a printed string yields the printed content.
pub proof fn lemma_parse_quoted(pre: Seq<char>, s: Seq<char>, post: Seq<char>)
    ensures
        ({
            let full = pre + sp_quote(s) + post;
            sp_parse_string(full, pre.len() as int) == Some((s, (pre.len() + sp_quote(s).len()) as int))
        }),
{
    let full = pre + sp_quote(s) + post;
    assert(full[pre.len() as int] == '"');
    let pre2 = pre + seq!['"'];
    lemma_parse_body_escaped(pre2, s, post, Seq::<char>::empty());
    assert(pre2 + sp_escape(s) + seq!['"'] + post =~= full);
    assert(Seq::<char>::empty() + s =~= s);
}

/// Skipping a value standing where a printed string stands passes it whole.
pub proof fn lemma_skip_string(pre: Seq<char>, s: Seq<char>, post: Seq<char>)
    ensures
        ({
            let full = pre + sp_quote(s) + post;
            sp_skip_value(full, pre.len() as int) == Some((pre.len() + sp_quote(s).len()) as int)
        }),
{
    let full = pre + sp_quote(s) + post;
    assert(full[pre.len() as int] == '"');
    lemma_parse_quoted(pre, s, post);
}

} // verus!

verus! {

/// One printed member standing at `pre.len()`: its key parses, its value's
/// extent is as given, and the member scan either steps past it (comma) or
/// closes the object (brace).
pub proof fn lemma_members_entry(
    pre: Seq<char>,
    k: Seq<char>,
    vtxt: Seq<char>,
    tail: Seq<char>,
    first: bool,
)
    requires
        vtxt.len() > 0,
        !is_ws(vtxt[0]),
        tail.len() > 0,
        tail[0] == ',' || tail[0] == '}',
        sp_skip_value(
            pre + sp_quote(k) + seq![':'] + vtxt + tail,
            (pre.len() + sp_quote(k).len() + 1) as int,
        ) == Some((pre.len() + sp_quote(k).len() + 1 + vtxt.len()) as int),
    ensures
        ({
            let full = pre + sp_quote(k) + seq![':'] + vtxt + tail;
            let next = (pre.len() + sp_quote(k).len() + 1 + vtxt.len() + 1) as int;
            if tail[0] == ',' {
                sp_skip_members(full, pre.len() as int, first) == sp_skip_members(
                    full,
                    next,
                    false,
                )
            } else {
                sp_skip_members(full, pre.len() as int, first) == Some(next)
            }
        }),
{
    let full = pre + sp_quote(k) + seq![':'] + vtxt + tail;
    let i = pre.len() as int;
    let e = (pre.len() + sp_quote(k).len()) as int;
    let vstart = e + 1;
    let endv = vstart + vtxt.len() as int;
    lemma_parse_quoted(pre, k, seq![':'] + vtxt + tail);
    assert(pre + sp_quote(k) + (seq![':'] + vtxt + tail) =~= full);
    assert(sp_parse_string(full, i) == Some((k, e)));
    assert(full[i] == '"');
    assert(full[e] == ':');
    assert(sp_skip_ws(full, e) == e);
    assert(full[vstart] == vtxt[0]);
    assert(full[endv] == tail[0]);
    assert(sp_skip_ws(full, endv) == endv);
}

/// Looking for `key` at a printed member: found here when the keys match,
/// else the search steps past the member or gives up at the closing brace.
pub proof fn lemma_find_entry(
    pre: Seq<char>,
    k: Seq<char>,
    vtxt: Seq<char>,
    tail: Seq<char>,
    key: Seq<char>,
)
    requires
        vtxt.len() > 0,
        !is_ws(vtxt[0]),
        tail.len() > 0,
        tail[0] == ',' || tail[0] == '}',
        sp_skip_value(
            pre + sp_quote(k) + seq![':'] + vtxt + tail,
            (pre.len() + sp_quote(k).len() + 1) as int,
        ) == Some((pre.len() + sp_quote(k).len() + 1 + vtxt.len()) as int),
    ensures
        ({
            let full = pre + sp_quote(k) + seq![':'] + vtxt + tail;
            let vstart = (pre.len() + sp_quote(k).len() + 1) as int;
            let next = vstart + vtxt.len() + 1;
            if k == key {
                sp_find_field(full, pre.len() as int, key) == Some(vstart)
            } else if tail[0] == ',' {
                sp_find_field(full, pre.len() as int, key) == sp_find_field(full, next, key)
            } else {
                sp_find_field(full, pre.len() as int, key) is None
            }
        }),
{
    let full = pre + sp_quote(k) + seq![':'] + vtxt + tail;
    let i = pre.len() as int;
    let e = (pre.len() + sp_quote(k).len()) as int;
    let vstart = e + 1;
    let endv = vstart + vtxt.len() as int;
    lemma_parse_quoted(pre, k, seq![':'] + vtxt + tail);
    assert(pre + sp_quote(k) + (seq![':'] + vtxt + tail) =~= full);
    assert(sp_parse_string(full, i) == Some((k, e)));
    assert(full[i] == '"');
    assert(full[e] == ':');
    assert(sp_skip_ws(full, e) == e);
    assert(full[vstart] == vtxt[0]);
    assert(sp_skip_ws(full, vstart) == vstart);
    assert(full[endv] == tail[0]);
    assert(sp_skip_ws(full, endv) == endv);
}

/// Skipping a value standing where a printed one-element array stands passes
/// it whole.
pub proof fn lemma_skip_list1(pre: Seq<char>, x: Seq<char>, post: Seq<char>)
    ensures
        ({
            let full = pre + sp_list1(x) + post;
            sp_skip_value(full, pre.len() as int) == Some((pre.len() + sp_list1(x).len()) as int)
        }),
{
    let full = pre + sp_list1(x) + post;
    let i = pre.len() as int;
    assert(full[i] == '[');
    lemma_skip_string(pre + seq!['['], x, seq![']'] + post);
    assert((pre + seq!['[']) + sp_quote(x) + (seq![']'] + post) =~= full);
    let e = i + 1 + sp_quote(x).len() as int;
    assert(full[i + 1] == '"');
    assert(full[e] == ']');
    assert(sp_skip_ws(full, e) == e);
    assert(sp_skip_value(full, i + 1) == Some(e));
    assert(sp_skip_elems(full, i + 1, true) == Some(e + 1));
    assert(sp_skip_value(full, i) == sp_skip_elems(full, i + 1, true));
}

/// Parsing the printed one-element array yields exactly that element.
pub proof fn lemma_parse_list1(pre: Seq<char>, x: Seq<char>, post: Seq<char>)
    ensures
        ({
            let full = pre + sp_list1(x) + post;
            sp_parse_string_list(full, pre.len() as int) == Some(
                (seq![x], (pre.len() + sp_list1(x).len()) as int),
            )
        }),
{
    let full = pre + sp_list1(x) + post;
    let i = pre.len() as int;
    assert(full[i] == '[');
    lemma_parse_quoted(pre + seq!['['], x, seq![']'] + post);
    assert((pre + seq!['[']) + sp_quote(x) + (seq![']'] + post) =~= full);
    let e = i + 1 + sp_quote(x).len() as int;
    assert(full[i + 1] == '"');
    assert(full[e] == ']');
    assert(sp_skip_ws(full, e) == e);
    assert(Seq::<Seq<char>>::empty().push(x) =~= seq![x]);
}

} // verus!

verus! {

/// The printed pong message is a well-formed frame, and its one field reads
/// back as the action that was printed: decoding the encoding of a pong
/// message returns the original record.
pub proof fn lemma_pong_round_trip(action: Seq<char>)
    ensures
        sp_frame_wf(sp_encode_pong(action)),
        sp_field(sp_encode_pong(action), "action"@) == Some(action),
{
    let t = sp_encode_pong(action);
    let ak = "action"@;
    let pre = seq!['{'];
    let tail = seq!['}'];
    assert(t =~= pre + sp_quote(ak) + seq![':'] + sp_quote(action) + tail);
    lemma_skip_string(pre + sp_quote(ak) + seq![':'], action, tail);
    assert((pre + sp_quote(ak) + seq![':']) + sp_quote(action) + (tail) =~= t);
    assert(sp_quote(action)[0] == '"');
    lemma_members_entry(pre, ak, sp_quote(action), tail, true);
    lemma_find_entry(pre, ak, sp_quote(action), tail, ak);
    lemma_parse_quoted(pre + sp_quote(ak) + seq![':'], action, tail);
    let vstart = (1 + sp_quote(ak).len() + 1) as int;
    let next = (1 + sp_quote(ak).len() + 1 + sp_quote(action).len() + 1) as int;
    assert(t[0] == '{');
    assert(sp_skip_ws(t, 0) == 0);
    assert(sp_top(t) == 0);
    assert(sp_skip_value(t, 0) == sp_skip_members(t, 1, true));
    assert(sp_skip_members(t, 1, true) == Some(next));
    assert(next == t.len());
    assert(sp_skip_ws(t, t.len() as int) == t.len() as int);
    assert(sp_frame_wf(t));
    assert(sp_find_field(t, 1, ak) == Some(vstart));
    assert(sp_string_at(t, vstart) == Some(action));
    assert(sp_field(t, ak) == Some(action));
}

/// The printed auth message is a well-formed frame, and its three fields
/// read back as the values that were printed: decoding the encoding of an
/// auth message returns the original record.
#[verifier::rlimit(100)]
pub proof fn lemma_auth_round_trip(action: Seq<char>, key: Seq<char>, secret: Seq<char>)
    ensures
        sp_frame_wf(sp_encode_auth(action, key, secret)),
        sp_field(sp_encode_auth(action, key, secret), "action"@) == Some(action),
        sp_field(sp_encode_auth(action, key, secret), "key"@) == Some(key),
        sp_field(sp_encode_auth(action, key, secret), "secret"@) == Some(secret),
{
    let t = sp_encode_auth(action, key, secret);
    let ak = "action"@;
    let kk = "key"@;
    let sk = "secret"@;
    reveal_strlit("action");
    reveal_strlit("key");
    reveal_strlit("secret");
    assert(ak.len() == 6 && kk.len() == 3 && sk.len() == 6);
    assert(ak[0] == 'a' && sk[0] == 's');
    assert(ak != kk && ak != sk && kk != sk);
    let pre1 = seq!['{'];
    let tail1 = seq![','] + sp_quote(kk) + seq![':'] + sp_quote(key) + seq![','] + sp_quote(sk)
        + seq![':'] + sp_quote(secret) + seq!['}'];
    assert(t =~= pre1 + sp_quote(ak) + seq![':'] + sp_quote(action) + tail1);
    lemma_skip_string(pre1 + sp_quote(ak) + seq![':'], action, tail1);
    assert((pre1 + sp_quote(ak) + seq![':']) + sp_quote(action) + (tail1) =~= t);
    assert(sp_quote(action)[0] == '"');
    assert(tail1[0] == ',');
    lemma_members_entry(pre1, ak, sp_quote(action), tail1, true);
    lemma_find_entry(pre1, ak, sp_quote(action), tail1, ak);
    lemma_find_entry(pre1, ak, sp_quote(action), tail1, kk);
    lemma_find_entry(pre1, ak, sp_quote(action), tail1, sk);
    lemma_parse_quoted(pre1 + sp_quote(ak) + seq![':'], action, tail1);
    let v1 = (1 + sp_quote(ak).len() + 1) as int;
    let n1 = v1 + sp_quote(action).len() + 1;

    let pre2 = pre1 + sp_quote(ak) + seq![':'] + sp_quote(action) + seq![','];
    let tail2 = seq![','] + sp_quote(sk) + seq![':'] + sp_quote(secret) + seq!['}'];
    assert(pre2.len() == n1);
    assert(t =~= pre2 + sp_quote(kk) + seq![':'] + sp_quote(key) + tail2);
    lemma_skip_string(pre2 + sp_quote(kk) + seq![':'], key, tail2);
    assert((pre2 + sp_quote(kk) + seq![':']) + sp_quote(key) + (tail2) =~= t);
    assert(sp_quote(key)[0] == '"');
    assert(tail2[0] == ',');
    lemma_members_entry(pre2, kk, sp_quote(key), tail2, false);
    lemma_find_entry(pre2, kk, sp_quote(key), tail2, kk);
    lemma_find_entry(pre2, kk, sp_quote(key), tail2, sk);
    lemma_parse_quoted(pre2 + sp_quote(kk) + seq![':'], key, tail2);
    let v2 = n1 + sp_quote(kk).len() + 1;
    let n2 = v2 + sp_quote(key).len() + 1;

    let pre3 = pre2 + sp_quote(kk) + seq![':'] + sp_quote(key) + seq![','];
    let tail3 = seq!['}'];
    assert(pre3.len() == n2);
    assert(t =~= pre3 + sp_quote(sk) + seq![':'] + sp_quote(secret) + tail3);
    lemma_skip_string(pre3 + sp_quote(sk) + seq![':'], secret, tail3);
    assert((pre3 + sp_quote(sk) + seq![':']) + sp_quote(secret) + (tail3) =~= t);
    assert(sp_quote(secret)[0] == '"');
    lemma_members_entry(pre3, sk, sp_quote(secret), tail3, false);
    lemma_find_entry(pre3, sk, sp_quote(secret), tail3, sk);
    lemma_parse_quoted(pre3 + sp_quote(sk) + seq![':'], secret, tail3);
    let v3 = n2 + sp_quote(sk).len() + 1;
    let n3 = v3 + sp_quote(secret).len() + 1;

    assert(t[0] == '{');
    assert(sp_skip_ws(t, 0) == 0);
    assert(sp_top(t) == 0);
    assert(sp_skip_value(t, 0) == sp_skip_members(t, 1, true));
    assert(sp_skip_members(t, 1, true) == sp_skip_members(t, n1, false));
    assert(sp_skip_members(t, n1, false) == sp_skip_members(t, n2, false));
    assert(sp_skip_members(t, n2, false) == Some(n3));
    assert(n3 == t.len());
    assert(sp_skip_ws(t, t.len() as int) == t.len() as int);
    assert(sp_frame_wf(t));

    assert(sp_find_field(t, 1, ak) == Some(v1));
    assert(sp_string_at(t, v1) == Some(action));
    assert(sp_field(t, ak) == Some(action));
    assert(sp_find_field(t, 1, kk) == sp_find_field(t, n1, kk));
    assert(sp_find_field(t, n1, kk) == Some(v2));
    assert(sp_string_at(t, v2) == Some(key));
    assert(sp_field(t, kk) == Some(key));
    assert(sp_find_field(t, 1, sk) == sp_find_field(t, n1, sk));
    assert(sp_find_field(t, n1, sk) == sp_find_field(t, n2, sk));
    assert(sp_find_field(t, n2, sk) == Some(v3));
    assert(sp_string_at(t, v3) == Some(secret));
    assert(sp_field(t, sk) == Some(secret));
}

/// The printed subscribe message is a well-formed frame, its action reads
/// back as printed, and its bucket list reads back as exactly the one
/// printed bucket: decoding the encoding of a subscribe message returns the
/// original record.
#[verifier::rlimit(100)]
pub proof fn lemma_subscribe_round_trip(action: Seq<char>, bucket: Seq<char>)
    ensures
        sp_frame_wf(sp_encode_subscribe(action, bucket)),
        sp_field(sp_encode_subscribe(action, bucket), "action"@) == Some(action),
        sp_list_field(sp_encode_subscribe(action, bucket), "buckets"@) == Some(seq![bucket]),
{
    let t = sp_encode_subscribe(action, bucket);
    let ak = "action"@;
    let bk = "buckets"@;
    reveal_strlit("action");
    reveal_strlit("buckets");
    assert(ak.len() == 6 && bk.len() == 7);
    assert(ak != bk);
    let pre1 = seq!['{'];
    let tail1 = seq![','] + sp_quote(bk) + seq![':'] + sp_list1(bucket) + seq!['}'];
    assert(t =~= pre1 + sp_quote(ak) + seq![':'] + sp_quote(action) + tail1);
    lemma_skip_string(pre1 + sp_quote(ak) + seq![':'], action, tail1);
    assert((pre1 + sp_quote(ak) + seq![':']) + sp_quote(action) + (tail1) =~= t);
    assert(sp_quote(action)[0] == '"');
    assert(tail1[0] == ',');
    lemma_members_entry(pre1, ak, sp_quote(action), tail1, true);
    lemma_find_entry(pre1, ak, sp_quote(action), tail1, ak);
    lemma_find_entry(pre1, ak, sp_quote(action), tail1, bk);
    lemma_parse_quoted(pre1 + sp_quote(ak) + seq![':'], action, tail1);
    let v1 = (1 + sp_quote(ak).len() + 1) as int;
    let n1 = v1 + sp_quote(action).len() + 1;

    let pre2 = pre1 + sp_quote(ak) + seq![':'] + sp_quote(action) + seq![','];
    let tail2 = seq!['}'];
    assert(pre2.len() == n1);
    assert(t =~= pre2 + sp_quote(bk) + seq![':'] + sp_list1(bucket) + tail2);
    lemma_skip_list1(pre2 + sp_quote(bk) + seq![':'], bucket, tail2);
    assert((pre2 + sp_quote(bk) + seq![':']) + sp_list1(bucket) + (tail2) =~= t);
    assert(sp_list1(bucket)[0] == '[');
    lemma_members_entry(pre2, bk, sp_list1(bucket), tail2, false);
    lemma_find_entry(pre2, bk, sp_list1(bucket), tail2, bk);
    lemma_parse_list1(pre2 + sp_quote(bk) + seq![':'], bucket, tail2);
    let v2 = n1 + sp_quote(bk).len() + 1;
    let n2 = v2 + sp_list1(bucket).len() + 1;

    assert(t[0] == '{');
    assert(sp_skip_ws(t, 0) == 0);
    assert(sp_top(t) == 0);
    assert(sp_skip_value(t, 0) == sp_skip_members(t, 1, true));
    assert(sp_skip_members(t, 1, true) == sp_skip_members(t, n1, false));
    assert(sp_skip_members(t, n1, false) == Some(n2));
    assert(n2 == t.len());
    assert(sp_skip_ws(t, t.len() as int) == t.len() as int);
    assert(sp_frame_wf(t));

    assert(sp_find_field(t, 1, ak) == Some(v1));
    assert(sp_string_at(t, v1) == Some(action));
    assert(sp_field(t, ak) == Some(action));
    assert(sp_find_field(t, 1, bk) == sp_find_field(t, n1, bk));
    assert(sp_find_field(t, n1, bk) == Some(v2));
    assert(sp_parse_string_list(t, v2) == Some((seq![bucket], n2 - 1)));
    assert(sp_list_field(t, bk) == Some(seq![bucket]));
}

} // verus!
