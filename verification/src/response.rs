//! The response builder: from a typed outcome to the JSON text that is sent.

use vstd::prelude::*;
use vstd::string::*;
use vstd::utf8::*;
use crate::escape::{escape, json_escape, lemma_escape_ends_at_quote};

verus! {

/// What the server answers to one request.
#[derive(Debug, Clone, PartialEq, Eq)]
pub enum Response {
    /// The request was carried out and there is nothing to hand back.
    StoreSuccess,
    /// The key (first) was found; the hash (second) is what it holds.
    LoadSuccess(String, String),
    /// Nothing is stored under the key that was asked for.
    LoadNotFound,
    /// The payload was no request; the text says why.
    InvalidRequest(String),
}

/// A response with its strings taken as sequences of characters.
pub enum ResponseView {
    StoreSuccess,
    LoadSuccess(Seq<char>, Seq<char>),
    LoadNotFound,
    InvalidRequest(Seq<char>),
}

impl View for Response {
    type V = ResponseView;

    open spec fn view(&self) -> ResponseView {
        match self {
            Response::StoreSuccess => ResponseView::StoreSuccess,
            Response::LoadSuccess(key, hash) => ResponseView::LoadSuccess(key@, hash@),
            Response::LoadNotFound => ResponseView::LoadNotFound,
            Response::InvalidRequest(reason) => ResponseView::InvalidRequest(reason@),
        }
    }
}

/// The JSON text of a response: one object of string values. The order of the
/// fields is fixed, and a key, a hash or a reason stands between its quotes
/// escaped.
pub open spec fn response_text(response: ResponseView) -> Seq<char> {
    match response {
        ResponseView::StoreSuccess => "{\"response_status\":\"success\"}"@,
        ResponseView::LoadSuccess(key, hash) => {
            "{\"response_status\":\"success\",\"requested_key\":\""@ + json_escape(key)
                + "\",\"requested_hash\":\""@ + json_escape(hash) + "\"}"@
        },
        ResponseView::LoadNotFound => "{\"response_status\":\"key not found\"}"@,
        ResponseView::InvalidRequest(reason) => {
            "{\"response_status\":\"invalid request\",\"error\":\""@ + json_escape(reason)
                + "\"}"@
        },
    }
}

/// The payload of a response: its JSON text in UTF-8.
pub open spec fn response_bytes(response: ResponseView) -> Seq<u8> {
    encode_utf8(response_text(response))
}

/// The text of the greeting that opens every connection.
pub open spec fn greeting_text() -> Seq<char> {
    "{\"student_name\": \"das67333\"}"@
}

/// The payload of the greeting.
pub open spec fn greeting_bytes() -> Seq<u8> {
    encode_utf8(greeting_text())
}

/// Builds the payload of a response.
pub fn serialize_response(response: Response) -> (bytes: Vec<u8>)
    ensures
        bytes@ == response_bytes(response@),
{
    let text = match response {
        Response::StoreSuccess => String::from_str("{\"response_status\":\"success\"}"),
        Response::LoadSuccess(key, hash) => {
            String::from_str("{\"response_status\":\"success\",\"requested_key\":\"").concat(
                escape(key.as_str()).as_str(),
            ).concat("\",\"requested_hash\":\"").concat(escape(hash.as_str()).as_str()).concat(
                "\"}",
            )
        },
        Response::LoadNotFound => String::from_str("{\"response_status\":\"key not found\"}"),
        Response::InvalidRequest(reason) => {
            String::from_str("{\"response_status\":\"invalid request\",\"error\":\"").concat(
                escape(reason.as_str()).as_str(),
            ).concat("\"}")
        },
    };
    text.as_str().as_bytes_vec()
}

/// Builds the payload of the greeting.
pub fn greeting() -> (bytes: Vec<u8>)
    ensures
        bytes@ == greeting_bytes(),
{
    "{\"student_name\": \"das67333\"}".as_bytes_vec()
}

/// Text that is not empty has an encoding that is not empty.
proof fn lemma_encoding_not_empty(text: Seq<char>)
    requires
        text.len() > 0,
    ensures
        encode_utf8(text).len() > 0,
{
}

/// No response lacks content.
pub proof fn lemma_response_not_empty(response: ResponseView)
    ensures
        response_bytes(response).len() > 0,
{
    reveal_strlit("{\"response_status\":\"success\"}");
    reveal_strlit("{\"response_status\":\"success\",\"requested_key\":\"");
    reveal_strlit("{\"response_status\":\"key not found\"}");
    reveal_strlit("{\"response_status\":\"invalid request\",\"error\":\"");
    lemma_encoding_not_empty(response_text(response));
}

/// The greeting does not lack content either.
pub proof fn lemma_greeting_not_empty()
    ensures
        greeting_bytes().len() > 0,
{
    reveal_strlit("{\"student_name\": \"das67333\"}");
    lemma_encoding_not_empty(greeting_text());
}

/// The text of a response tells which response it is: two responses with the
/// same text are the same response, key for key, hash for hash and reason
/// for reason.
pub proof fn lemma_text_tells_response(a: ResponseView, b: ResponseView)
    requires
        response_text(a) == response_text(b),
    ensures
        a == b,
{
    reveal_strlit("{\"response_status\":\"success\"}");
    reveal_strlit("{\"response_status\":\"success\",\"requested_key\":\"");
    reveal_strlit("\",\"requested_hash\":\"");
    reveal_strlit("\"}");
    reveal_strlit("{\"response_status\":\"key not found\"}");
    reveal_strlit("{\"response_status\":\"invalid request\",\"error\":\"");
    let ta = response_text(a);
    let tb = response_text(b);
    assert(ta[20] == tb[20]);
    assert(ta[28] == tb[28]);
    let close = "\"}"@;
    assert(close =~= seq!['"'] + seq!['}']);
    match (a, b) {
        (ResponseView::LoadSuccess(key_a, hash_a), ResponseView::LoadSuccess(key_b, hash_b)) => {
            let open = "{\"response_status\":\"success\",\"requested_key\":\""@;
            let middle = "\",\"requested_hash\":\""@;
            let inner = middle.skip(1);
            assert(middle =~= seq!['"'] + inner);
            let after_a = inner + json_escape(hash_a) + close;
            let after_b = inner + json_escape(hash_b) + close;
            assert(ta.skip(open.len() as int) =~= json_escape(key_a) + seq!['"'] + after_a);
            assert(tb.skip(open.len() as int) =~= json_escape(key_b) + seq!['"'] + after_b);
            lemma_escape_ends_at_quote(key_a, after_a, key_b, after_b);
            assert(after_a.skip(inner.len() as int) =~= json_escape(hash_a) + seq!['"'] + seq![
                '}',
            ]);
            assert(after_b.skip(inner.len() as int) =~= json_escape(hash_b) + seq!['"'] + seq![
                '}',
            ]);
            lemma_escape_ends_at_quote(hash_a, seq!['}'], hash_b, seq!['}']);
        },
        (ResponseView::InvalidRequest(reason_a), ResponseView::InvalidRequest(reason_b)) => {
            let open = "{\"response_status\":\"invalid request\",\"error\":\""@;
            assert(ta.skip(open.len() as int) =~= json_escape(reason_a) + seq!['"'] + seq!['}']);
            assert(tb.skip(open.len() as int) =~= json_escape(reason_b) + seq!['"'] + seq!['}']);
            lemma_escape_ends_at_quote(reason_a, seq!['}'], reason_b, seq!['}']);
        },
        _ => {},
    }
}

/// The payload of a response tells which response it is: no two responses go
/// out as the same bytes.
pub proof fn lemma_bytes_tell_response(a: ResponseView, b: ResponseView)
    requires
        response_bytes(a) == response_bytes(b),
    ensures
        a == b,
{
    encode_utf8_decode_utf8(response_text(a));
    encode_utf8_decode_utf8(response_text(b));
    lemma_text_tells_response(a, b);
}

} // verus!
