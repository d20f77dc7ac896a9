use hash_delivery_network::request::{
    deserialize_request, request_from_fields, try_deserialize_request, Fields, ParseError, Request,
};

fn fields_of(pairs: &[(&str, &str)]) -> Fields {
    let mut fields = Fields::new();
    for (name, value) in pairs {
        fields.insert(name.to_string(), value.to_string());
    }
    fields
}

#[test]
fn store_request_is_parsed() {
    let payload = b"{\"request_type\":\"store\",\"key\":\"abc\",\"hash\":\"0b672dd94fd3da6a8d404b66ee3f0c83\"}";
    assert_eq!(
        try_deserialize_request(payload),
        Ok(Request::Store(
            "abc".to_string(),
            "0b672dd94fd3da6a8d404b66ee3f0c83".to_string()
        ))
    );
}

#[test]
fn load_request_is_parsed() {
    let payload = b"{\"request_type\":\"load\",\"key\":\"abc\"}";
    assert_eq!(
        try_deserialize_request(payload),
        Ok(Request::Load("abc".to_string()))
    );
}

#[test]
fn shutdown_request_is_parsed() {
    assert_eq!(
        try_deserialize_request(b"{\"request_type\":\"shutdown\"}"),
        Ok(Request::Shutdown)
    );
}

#[test]
fn whitespace_between_tokens_is_accepted() {
    let payload = b"{\
    \n\t\"request_type\": \"load\",\
    \n\t\"key\": \"some_key\"\
    \n}";
    assert_eq!(
        deserialize_request(payload),
        Request::Load("some_key".to_string())
    );
}

#[test]
fn unknown_fields_are_ignored() {
    let payload = b"{\"request_type\":\"load\",\"key\":\"k\",\"hash\":\"h\",\"note\":\"x\"}";
    assert_eq!(
        try_deserialize_request(payload),
        Ok(Request::Load("k".to_string()))
    );
    assert_eq!(
        try_deserialize_request(b"{\"request_type\":\"shutdown\",\"key\":\"k\"}"),
        Ok(Request::Shutdown)
    );
}

#[test]
fn escaped_characters_are_decoded() {
    let payload = b"{\"request_type\":\"load\",\"key\":\"a\\\"b\\u00e9\"}";
    assert_eq!(
        try_deserialize_request(payload),
        Ok(Request::Load("a\"b\u{e9}".to_string()))
    );
}

#[test]
fn non_utf8_payload_is_refused() {
    assert_eq!(
        try_deserialize_request(&[b'{', 0xff, 0xfe, b'}']),
        Err(ParseError::NonUtf8)
    );
    assert_eq!(
        deserialize_request(&[0xc3]),
        Request::Invalid("non-utf8 payload".to_string())
    );
}

#[test]
fn malformed_json_is_refused() {
    assert_eq!(
        try_deserialize_request(b"not json at all"),
        Err(ParseError::MalformedJson)
    );
    assert_eq!(
        try_deserialize_request(b"{\"request_type\":\"load\""),
        Err(ParseError::MalformedJson)
    );
    assert_eq!(
        deserialize_request(b"[1, 2, 3]"),
        Request::Invalid("malformed JSON".to_string())
    );
}

#[test]
fn values_that_are_not_strings_are_refused() {
    assert_eq!(
        try_deserialize_request(b"{\"request_type\":\"load\",\"key\":5}"),
        Err(ParseError::MalformedJson)
    );
    assert_eq!(
        try_deserialize_request(b"{\"request_type\":\"load\",\"key\":{\"a\":\"b\"}}"),
        Err(ParseError::MalformedJson)
    );
}

#[test]
fn missing_request_type_is_refused() {
    assert_eq!(
        try_deserialize_request(b"{\"key\":\"abc\"}"),
        Err(ParseError::MissingRequestType)
    );
    assert_eq!(
        deserialize_request(b"{}"),
        Request::Invalid("missing request_type".to_string())
    );
}

#[test]
fn store_without_hash_is_refused() {
    assert_eq!(
        try_deserialize_request(b"{\"request_type\":\"store\",\"key\":\"abc\"}"),
        Err(ParseError::MissingHash)
    );
    assert_eq!(
        deserialize_request(b"{\"request_type\":\"store\"}"),
        Request::Invalid("missing hash".to_string())
    );
}

#[test]
fn store_without_key_is_refused() {
    assert_eq!(
        try_deserialize_request(b"{\"request_type\":\"store\",\"hash\":\"h\"}"),
        Err(ParseError::MissingKey)
    );
    assert_eq!(
        deserialize_request(b"{\"request_type\":\"store\",\"hash\":\"h\"}"),
        Request::Invalid("missing key".to_string())
    );
}

#[test]
fn load_without_key_is_refused() {
    assert_eq!(
        try_deserialize_request(b"{\"request_type\":\"load\"}"),
        Err(ParseError::MissingKey)
    );
}

#[test]
fn unsupported_request_type_is_refused() {
    assert_eq!(
        try_deserialize_request(b"{\"request_type\":\"delete\",\"key\":\"abc\"}"),
        Err(ParseError::UnsupportedRequestType)
    );
    assert_eq!(
        deserialize_request(b"{\"request_type\":\"STORE\",\"key\":\"k\",\"hash\":\"h\"}"),
        Request::Invalid("unsupported request_type".to_string())
    );
}

#[test]
fn every_failure_has_its_message() {
    assert_eq!(ParseError::NonUtf8.message(), "non-utf8 payload");
    assert_eq!(ParseError::MalformedJson.message(), "malformed JSON");
    assert_eq!(ParseError::MissingRequestType.message(), "missing request_type");
    assert_eq!(ParseError::MissingHash.message(), "missing hash");
    assert_eq!(ParseError::MissingKey.message(), "missing key");
    assert_eq!(ParseError::EmptyHash.message(), "empty hash");
    assert_eq!(ParseError::EmptyKey.message(), "empty key");
    assert_eq!(
        ParseError::UnsupportedRequestType.message(),
        "unsupported request_type"
    );
}

#[test]
fn store_with_an_empty_hash_is_refused() {
    assert_eq!(
        try_deserialize_request(b"{\"request_type\":\"store\",\"key\":\"k\",\"hash\":\"\"}"),
        Err(ParseError::EmptyHash)
    );
    assert_eq!(
        deserialize_request(b"{\"request_type\":\"store\",\"key\":\"\",\"hash\":\"\"}"),
        Request::Invalid("empty hash".to_string())
    );
}

#[test]
fn store_with_an_empty_key_is_refused() {
    assert_eq!(
        try_deserialize_request(b"{\"request_type\":\"store\",\"key\":\"\",\"hash\":\"h\"}"),
        Err(ParseError::EmptyKey)
    );
    assert_eq!(
        deserialize_request(b"{\"request_type\":\"store\",\"key\":\"\",\"hash\":\"h\"}"),
        Request::Invalid("empty key".to_string())
    );
}

#[test]
fn load_of_an_empty_key_is_a_load() {
    assert_eq!(
        try_deserialize_request(b"{\"request_type\":\"load\",\"key\":\"\"}"),
        Ok(Request::Load(String::new()))
    );
}

#[test]
fn fields_hold_the_last_value_set() {
    let mut fields = Fields::new();
    assert_eq!(fields.get("key"), None);
    fields.insert("key".to_string(), "one".to_string());
    fields.insert("key".to_string(), "two".to_string());
    assert_eq!(fields.get("key"), Some("two".to_string()));
    assert_eq!(fields.get("hash"), None);
}

#[test]
fn request_is_read_off_the_fields() {
    assert_eq!(
        request_from_fields(&fields_of(&[
            ("request_type", "store"),
            ("key", "k"),
            ("hash", "h")
        ])),
        Ok(Request::Store("k".to_string(), "h".to_string()))
    );
    assert_eq!(
        request_from_fields(&fields_of(&[("request_type", "load"), ("key", "k")])),
        Ok(Request::Load("k".to_string()))
    );
    assert_eq!(
        request_from_fields(&fields_of(&[("request_type", "shutdown")])),
        Ok(Request::Shutdown)
    );
}

#[test]
fn fields_that_spell_no_request_are_refused() {
    assert_eq!(
        request_from_fields(&Fields::new()),
        Err(ParseError::MissingRequestType)
    );
    assert_eq!(
        request_from_fields(&fields_of(&[("request_type", "store")])),
        Err(ParseError::MissingHash)
    );
    assert_eq!(
        request_from_fields(&fields_of(&[("request_type", "store"), ("hash", "h")])),
        Err(ParseError::MissingKey)
    );
    assert_eq!(
        request_from_fields(&fields_of(&[("request_type", "load"), ("hash", "h")])),
        Err(ParseError::MissingKey)
    );
    assert_eq!(
        request_from_fields(&fields_of(&[
            ("request_type", "store"),
            ("key", ""),
            ("hash", "")
        ])),
        Err(ParseError::EmptyHash)
    );
    assert_eq!(
        request_from_fields(&fields_of(&[
            ("request_type", "store"),
            ("key", ""),
            ("hash", "h")
        ])),
        Err(ParseError::EmptyKey)
    );
    assert_eq!(
        request_from_fields(&fields_of(&[("request_type", "")])),
        Err(ParseError::UnsupportedRequestType)
    );
}
