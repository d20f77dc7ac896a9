//! The request parser: from one frame's payload to a typed request.

use vstd::prelude::*;
use vstd::hash_map::StringHashMap;
use vstd::utf8::*;
use std::collections::HashMap;

verus! {

/// What a client asks of the server.
#[derive(Debug, Clone, PartialEq, Eq)]
pub enum Request {
    /// Store the hash (second) under the key (first). The parser hands out
    /// none in which either is empty.
    Store(String, String),
    /// Look up the hash stored under the key.
    Load(String),
    /// Stop the whole server.
    Shutdown,
    /// The payload was no request; the text says why.
    Invalid(String),
}

/// A request with its strings taken as sequences of characters.
pub enum RequestView {
    Store(Seq<char>, Seq<char>),
    Load(Seq<char>),
    Shutdown,
    Invalid(Seq<char>),
}

impl View for Request {
    type V = RequestView;

    open spec fn view(&self) -> RequestView {
        match self {
            Request::Store(key, hash) => RequestView::Store(key@, hash@),
            Request::Load(key) => RequestView::Load(key@),
            Request::Shutdown => RequestView::Shutdown,
            Request::Invalid(reason) => RequestView::Invalid(reason@),
        }
    }
}

/// Why a payload is not a request.
#[derive(Debug, Clone, Copy, PartialEq, Eq, Structural)]
pub enum ParseError {
    /// The payload is not UTF-8 text.
    NonUtf8,
    /// The text is not a JSON object whose values are all strings.
    MalformedJson,
    /// The object has no `request_type`.
    MissingRequestType,
    /// A store request has no `hash`.
    MissingHash,
    /// A store or load request has no `key`.
    MissingKey,
    /// The `hash` of a store request is empty.
    EmptyHash,
    /// The `key` of a store request is empty.
    EmptyKey,
    /// The `request_type` is none that the server knows.
    UnsupportedRequestType,
}

impl ParseError {
    /// The diagnostic that the client is sent for this failure.
    pub open spec fn reason(self) -> Seq<char> {
        match self {
            ParseError::NonUtf8 => "non-utf8 payload"@,
            ParseError::MalformedJson => "malformed JSON"@,
            ParseError::MissingRequestType => "missing request_type"@,
            ParseError::MissingHash => "missing hash"@,
            ParseError::MissingKey => "missing key"@,
            ParseError::EmptyHash => "empty hash"@,
            ParseError::EmptyKey => "empty key"@,
            ParseError::UnsupportedRequestType => "unsupported request_type"@,
        }
    }

    /// The diagnostic as an owned string.
    pub fn message(&self) -> (text: String)
        ensures
            text@ == self.reason(),
    {
        match self {
            ParseError::NonUtf8 => "non-utf8 payload".to_owned(),
            ParseError::MalformedJson => "malformed JSON".to_owned(),
            ParseError::MissingRequestType => "missing request_type".to_owned(),
            ParseError::MissingHash => "missing hash".to_owned(),
            ParseError::MissingKey => "missing key".to_owned(),
            ParseError::EmptyHash => "empty hash".to_owned(),
            ParseError::EmptyKey => "empty key".to_owned(),
            ParseError::UnsupportedRequestType => "unsupported request_type".to_owned(),
        }
    }
}

/// The fields of a flat JSON object: each name with its string value.
pub type FieldMap = Map<Seq<char>, Seq<char>>;

/// A flat JSON object of string values, as the parser reads it.
pub struct Fields {
    entries: StringHashMap<String>,
}

impl View for Fields {
    type V = FieldMap;

    closed spec fn view(&self) -> FieldMap {
        Map::new(|k: Seq<char>| self.entries@.contains_key(k), |k: Seq<char>| self.entries@[k]@)
    }
}

impl Fields {
    /// An object without fields.
    pub fn new() -> (fields: Self)
        ensures
            fields@ == FieldMap::empty(),
    {
        let fields = Fields { entries: StringHashMap::new() };
        assert(fields@ =~= FieldMap::empty());
        fields
    }

    /// Sets the field `name` to `value`; a field of that name is replaced.
    pub fn insert(&mut self, name: String, value: String)
        ensures
            final(self)@ == old(self)@.insert(name@, value@),
    {
        self.entries.insert(name, value);
        assert(self@ =~= old(self)@.insert(name@, value@));
    }

    /// The value of the field `name`, if the object has it.
    pub fn get(&self, name: &str) -> (r: Option<String>)
        ensures
            match r {
                Some(value) => self@.contains_key(name@) && value@ == self@[name@],
                None => !self@.contains_key(name@),
            },
    {
        match self.entries.get(name) {
            Some(value) => Some(value.clone()),
            None => None,
        }
    }
}

/// The request that an object's fields spell out, or the reason they spell
/// none. A store request wants a `hash` and a `key`, neither of them empty,
/// and the hash is looked at first; a load request wants a `key`. Fields
/// other than `request_type`, `key` and `hash` are not looked at.
pub open spec fn fields_request(fields: FieldMap) -> Result<RequestView, ParseError> {
    if !fields.contains_key("request_type"@) {
        Err(ParseError::MissingRequestType)
    } else if fields["request_type"@] == "store"@ {
        if !fields.contains_key("hash"@) {
            Err(ParseError::MissingHash)
        } else if !fields.contains_key("key"@) {
            Err(ParseError::MissingKey)
        } else if fields["hash"@].len() == 0 {
            Err(ParseError::EmptyHash)
        } else if fields["key"@].len() == 0 {
            Err(ParseError::EmptyKey)
        } else {
            Ok(RequestView::Store(fields["key"@], fields["hash"@]))
        }
    } else if fields["request_type"@] == "load"@ {
        if !fields.contains_key("key"@) {
            Err(ParseError::MissingKey)
        } else {
            Ok(RequestView::Load(fields["key"@]))
        }
    } else if fields["request_type"@] == "shutdown"@ {
        Ok(RequestView::Shutdown)
    } else {
        Err(ParseError::UnsupportedRequestType)
    }
}

/// Whether the exec result `r` is the spec result `expected`.
pub open spec fn is_request(
    r: Result<Request, ParseError>,
    expected: Result<RequestView, ParseError>,
) -> bool {
    match r {
        Ok(request) => expected == Ok::<RequestView, ParseError>(request@),
        Err(e) => expected == Err::<RequestView, ParseError>(e),
    }
}

/// Whether two texts are the same, character for character.
fn same_text(a: &str, b: &str) -> (r: bool)
    ensures
        r == (a@ == b@),
{
    a.to_owned() == b.to_owned()
}

/// Reads a request off the fields of a decoded object.
pub fn request_from_fields(fields: &Fields) -> (r: Result<Request, ParseError>)
    ensures
        is_request(r, fields_request(fields@)),
{
    let request_type = match fields.get("request_type") {
        Some(value) => value,
        None => {
            return Err(ParseError::MissingRequestType);
        },
    };
    if same_text(request_type.as_str(), "store") {
        match fields.get("hash") {
            Some(hash) => match fields.get("key") {
                Some(key) => {
                    if hash.as_str().is_empty() {
                        Err(ParseError::EmptyHash)
                    } else if key.as_str().is_empty() {
                        Err(ParseError::EmptyKey)
                    } else {
                        Ok(Request::Store(key, hash))
                    }
                },
                None => Err(ParseError::MissingKey),
            },
            None => Err(ParseError::MissingHash),
        }
    } else if same_text(request_type.as_str(), "load") {
        match fields.get("key") {
            Some(key) => Ok(Request::Load(key)),
            None => Err(ParseError::MissingKey),
        }
    } else if same_text(request_type.as_str(), "shutdown") {
        Ok(Request::Shutdown)
    } else {
        Err(ParseError::UnsupportedRequestType)
    }
}

/// `serde_json::Error`, the decoder's error. It is carried through unread.
#[verifier::external_type_specification]
#[verifier::external_body]
pub struct ExJsonError(serde_json::Error);

/// What `serde_json::from_str` makes of a text when it is asked for a map from
/// `String` to `String`: the fields it decoded, each name with its value, or
/// `None` where it reports an error. The decoder is meant to accept one JSON
/// object whose values are all strings and nothing else; that is its business
/// and is not stated here.
pub uninterp spec fn json_string_object(text: Seq<char>) -> Option<FieldMap>;

/// Decodes `text` with `serde_json::from_str`, asked for a map from `String`
/// to `String`, and hands the map out entry for entry. Trusted: the outcome
/// depends on the text alone, which is all that giving it the name
/// `json_string_object` says. Nothing is claimed of which texts decode, nor
/// to what.
#[verifier::external_body]
fn decode_string_object(text: &str) -> (r: Result<Fields, serde_json::Error>)
    ensures
        match r {
            Ok(fields) => json_string_object(text@) == Some(fields@),
            Err(_) => json_string_object(text@) is None,
        },
{
    let decoded: HashMap<String, String> = serde_json::from_str(text)?;
    let mut entries = StringHashMap::new();
    for (name, value) in decoded {
        entries.insert(name, value);
    }
    Ok(Fields { entries })
}

/// Reads `bytes` as text with `core::str::from_utf8`. Trusted: the call
/// succeeds exactly on well-formed UTF-8, and the text then holds the
/// characters that the bytes encode.
#[verifier::external_body]
fn utf8_text(bytes: &[u8]) -> (r: Option<&str>)
    ensures
        match r {
            Some(text) => valid_utf8(bytes@) && text@ == decode_utf8(bytes@),
            None => !valid_utf8(bytes@),
        },
{
    match core::str::from_utf8(bytes) {
        Ok(text) => Some(text),
        Err(_) => None,
    }
}

/// The request that a payload holds, or the reason it holds none: the payload
/// is read as UTF-8 text, the text as a JSON object of strings, and the
/// object's fields as a request.
pub open spec fn payload_request(payload: Seq<u8>) -> Result<RequestView, ParseError> {
    if !valid_utf8(payload) {
        Err(ParseError::NonUtf8)
    } else {
        match json_string_object(decode_utf8(payload)) {
            None => Err(ParseError::MalformedJson),
            Some(fields) => fields_request(fields),
        }
    }
}

/// The request that a payload is taken for: what it holds, or `Invalid` with
/// the reason it holds none.
pub open spec fn parsed_request(payload: Seq<u8>) -> RequestView {
    match payload_request(payload) {
        Ok(request) => request,
        Err(e) => RequestView::Invalid(e.reason()),
    }
}

/// Parses one frame's payload. It looks at the bytes alone.
pub fn try_deserialize_request(payload: &[u8]) -> (r: Result<Request, ParseError>)
    ensures
        is_request(r, payload_request(payload@)),
{
    let text = match utf8_text(payload) {
        Some(text) => text,
        None => {
            return Err(ParseError::NonUtf8);
        },
    };
    match decode_string_object(text) {
        Ok(fields) => request_from_fields(&fields),
        Err(_) => Err(ParseError::MalformedJson),
    }
}

/// Parses one frame's payload, and never fails: a payload that holds no
/// request gives `Invalid` with the diagnostic for the client.
pub fn deserialize_request(payload: &[u8]) -> (request: Request)
    ensures
        request@ == parsed_request(payload@),
{
    match try_deserialize_request(payload) {
        Ok(request) => request,
        Err(e) => Request::Invalid(e.message()),
    }
}

} // verus!
