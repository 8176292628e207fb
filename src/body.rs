//! The message body: plain text, HTML text or a JSON value, chosen by the
//! declared media type.

use vstd::prelude::*;
use vstd::utf8::{decode_utf8, encode_utf8, valid_utf8};

use crate::header::ContentType;

verus! {

#[verifier::external_type_specification]
#[verifier::external_body]
pub struct ExJsonValue(serde_json::Value);

#[verifier::external_type_specification]
#[verifier::external_body]
pub struct ExJsonError(serde_json::Error);

/// Whether `serde_json::from_str` reads `s` as one JSON value.
pub uninterp spec fn is_json_text(s: Seq<char>) -> bool;

/// The members of a JSON object whose value is an unsigned integer that fits
/// in 64 bits, by name; empty for a value that is no object.
pub uninterp spec fn json_u64_members(v: serde_json::Value) -> Map<Seq<char>, u64>;

/// The members `json_u64_members` finds in the value that
/// `serde_json::from_str` reads from `s`.
pub uninterp spec fn json_text_u64_members(s: Seq<char>) -> Map<Seq<char>, u64>;

/// Relies on `serde_json::from_str` (into a `serde_json::Value`): the value
/// exactly when the text is JSON, else the parser's diagnostic. The value
/// depends on the text alone.
#[verifier::external_body]
fn parse_json(s: &str) -> (r: Result<serde_json::Value, serde_json::Error>)
    ensures
        r is Ok <==> is_json_text(s@),
        r matches Ok(v) ==> json_u64_members(v) == json_text_u64_members(s@),
{
    serde_json::from_str::<serde_json::Value>(s)
}

/// Relies on `serde_json::Value`'s `Display`: the compact JSON text of the value.
#[verifier::external_body]
fn json_to_text(v: &serde_json::Value) -> (r: String) {
    v.to_string()
}

/// Relies on `String::from_utf8`: the text exactly when the bytes are UTF-8.
#[verifier::external_body]
pub(crate) fn utf8_to_string(bytes: Vec<u8>) -> (r: Option<String>)
    ensures
        r is Some <==> valid_utf8(bytes@),
        r matches Some(s) ==> s@ == decode_utf8(bytes@),
{
    String::from_utf8(bytes).ok()
}

#[derive(Debug)]
pub enum BodyType {
    TextPlain(String),
    TextHtml(String),
    ApplicationJson(serde_json::Value),
}

/// A body with its wire text; the text of a plain or HTML body is its string.
#[derive(Debug)]
pub struct Body {
    body_type: BodyType,
    text: String,
}

#[derive(Debug)]
pub enum ParseError {
    /// The bytes are not UTF-8.
    InvalidBytes,
    /// The text is not JSON; the parser's diagnostic.
    InvalidJson(serde_json::Error),
}

/// What a body holds, as values; a JSON value is not looked into.
pub enum BodyView {
    TextPlain(Seq<char>),
    TextHtml(Seq<char>),
    /// A JSON value, seen through its unsigned integer members.
    ApplicationJson(Map<Seq<char>, u64>),
}

pub enum BodyError {
    InvalidBytes,
    InvalidJson,
}

impl View for BodyType {
    type V = BodyView;

    open spec fn view(&self) -> BodyView {
        match self {
            BodyType::TextPlain(s) => BodyView::TextPlain(s@),
            BodyType::TextHtml(s) => BodyView::TextHtml(s@),
            BodyType::ApplicationJson(v) => BodyView::ApplicationJson(json_u64_members(*v)),
        }
    }
}

impl View for Body {
    type V = BodyView;

    closed spec fn view(&self) -> BodyView {
        self.body_type@
    }
}

impl View for ParseError {
    type V = BodyError;

    open spec fn view(&self) -> BodyError {
        match self {
            ParseError::InvalidBytes => BodyError::InvalidBytes,
            ParseError::InvalidJson(_) => BodyError::InvalidJson,
        }
    }
}

/// The wire text that a body of this kind must have, where the kind fixes it.
pub open spec fn text_fixed_by(v: BodyView, text: Seq<char>) -> bool {
    match v {
        BodyView::TextPlain(s) => text == s,
        BodyView::TextHtml(s) => text == s,
        BodyView::ApplicationJson(_) => true,
    }
}

/// The number of bytes of the UTF-8 encoding of `text`, as `str::len` gives it.
pub open spec fn byte_count(text: Seq<char>) -> usize {
    encode_utf8(text).len() as usize
}

/// What decoding `bytes` under `content_type` gives.
pub open spec fn body_of(bytes: Seq<u8>, content_type: ContentType) -> Result<BodyView, BodyError> {
    if !valid_utf8(bytes) {
        Err(BodyError::InvalidBytes)
    } else {
        let s = decode_utf8(bytes);
        match content_type {
            ContentType::TextPlain => Ok(BodyView::TextPlain(s)),
            ContentType::TextHtml => Ok(BodyView::TextHtml(s)),
            ContentType::ApplicationJson => if is_json_text(s) {
                Ok(BodyView::ApplicationJson(json_text_u64_members(s)))
            } else {
                Err(BodyError::InvalidJson)
            },
        }
    }
}

impl Body {
    #[verifier::type_invariant]
    spec fn text_is_consistent(&self) -> bool {
        text_fixed_by(self.body_type@, self.text@)
    }

    /// The wire text of the body.
    pub closed spec fn text(&self) -> Seq<char> {
        self.text@
    }

    pub fn new(body_type: BodyType) -> (r: Body)
        ensures
            r@ == body_type@,
            text_fixed_by(r@, r.text()),
    {
        let text = match &body_type {
            BodyType::TextPlain(s) => s.clone(),
            BodyType::TextHtml(s) => s.clone(),
            BodyType::ApplicationJson(v) => json_to_text(v),
        };
        Body { body_type, text }
    }

    pub fn get_type(&self) -> (r: &BodyType)
        ensures
            r@ == self@,
    {
        &self.body_type
    }

    /// A JSON body whose wire text is already known.
    pub(crate) fn json_with_text(value: serde_json::Value, text: String) -> (r: Body)
        ensures
            r@ == BodyView::ApplicationJson(json_u64_members(value)),
            r.text() == text@,
    {
        Body { body_type: BodyType::ApplicationJson(value), text }
    }

    /// The wire text of the body.
    pub fn to_text(&self) -> (r: String)
        ensures
            r@ == self.text(),
            text_fixed_by(self@, r@),
    {
        proof {
            use_type_invariant(self);
        }
        self.text.clone()
    }

    /// The length of the wire text in bytes.
    pub fn byte_len(&self) -> (r: usize)
        ensures
            r == byte_count(self.text()),
    {
        self.text.as_str().len()
    }

    /// Decodes `body_data` as UTF-8 text and reads it as `content_type` says.
    pub fn parse(body_data: Vec<u8>, content_type: &ContentType) -> (r: Result<Body, ParseError>)
        ensures
            match r {
                Ok(b) => body_of(body_data@, *content_type) == Ok::<BodyView, BodyError>(b@)
                    && text_fixed_by(b@, b.text()),
                Err(e) => body_of(body_data@, *content_type) == Err::<BodyView, BodyError>(e@),
            },
    {
        let text = match utf8_to_string(body_data) {
            Some(s) => s,
            None => return Err(ParseError::InvalidBytes),
        };
        match content_type {
            ContentType::TextPlain => Ok(Body::new(BodyType::TextPlain(text))),
            ContentType::TextHtml => Ok(Body::new(BodyType::TextHtml(text))),
            ContentType::ApplicationJson => match parse_json(text.as_str()) {
                Ok(v) => Ok(Body::new(BodyType::ApplicationJson(v))),
                Err(e) => Err(ParseError::InvalidJson(e)),
            },
        }
    }
}

impl Default for BodyType {
    /// Empty plain text.
    fn default() -> (r: BodyType)
        ensures
            r@ == BodyView::TextPlain(Seq::empty()),
    {
        BodyType::TextPlain(String::new())
    }
}

impl Default for Body {
    /// The empty plain-text body.
    fn default() -> (r: Body)
        ensures
            r@ == BodyView::TextPlain(Seq::empty()),
            r.text() == Seq::<char>::empty(),
    {
        Body { body_type: BodyType::TextPlain(String::new()), text: String::new() }
    }
}

/// Any text, sent as UTF-8 bytes with media type `text/plain`, reads back as a
/// plain-text body holding exactly that text (whose wire text is then that text).
pub proof fn lemma_plain_text_round_trip(s: Seq<char>)
    ensures
        body_of(encode_utf8(s), ContentType::TextPlain) == Ok::<BodyView, BodyError>(
            BodyView::TextPlain(s),
        ),
        text_fixed_by(BodyView::TextPlain(s), s),
{
    broadcast use vstd::utf8::encode_utf8_valid_utf8, vstd::utf8::encode_utf8_decode_utf8;

}

} // verus!
