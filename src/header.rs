//! The header block: the three fields the engine reads (Host, Content-Type,
//! Content-Length) and every other field kept as it came.

use vstd::prelude::*;

use crate::raw_headers::{Fields, RawHeaders};
use crate::text::{
    capitalize, capitalized, decimal, digits_of, find, find_char, join, joined,
    lemma_u64_round_trip, parse_u64, parses_as_u64, str_eq, string_views, u64_value,
};
use crate::view_of_result;

verus! {

/// Whether `url::Url::parse` accepts `s` as an absolute URL.
pub uninterp spec fn is_absolute_url(s: Seq<char>) -> bool;

/// Relies on `url::Url::parse`: whether it accepts the text as an absolute URL.
#[verifier::external_body]
fn parses_as_url(s: &str) -> (r: bool)
    ensures
        r == is_absolute_url(s@),
{
    url::Url::parse(s).is_ok()
}

/// The value of the Host field; it parses as an absolute URL.
#[derive(Debug)]
pub struct Host(String);

/// The supported media types.
#[derive(Debug, Clone, Copy, PartialEq, Eq, Structural)]
pub enum ContentType {
    TextPlain,
    TextHtml,
    ApplicationJson,
}

/// The declared body length in bytes.
#[derive(Debug, Clone, Copy, PartialEq, Eq, Structural, Default)]
pub struct ContentLength(u64);

/// The fields other than Host, Content-Type and Content-Length.
#[derive(Debug)]
pub struct OtherHeaders(RawHeaders);

#[derive(Debug)]
pub struct Header {
    pub host: Host,
    pub content_type: ContentType,
    pub content_length: ContentLength,
    pub other_headers: OtherHeaders,
}

#[derive(Debug)]
pub enum ParseError {
    /// A required field is absent; its name.
    MissingHeader(String),
    /// The Host value is no absolute URL; the value.
    InvalidUrl(String),
    /// The Content-Length value is no number that fits in 64 bits; the value.
    InvalidContentLength(String),
    /// The declared length does not fit in memory addresses of this machine.
    ContentLengthTooLarge(u64),
    /// The media type is not supported; the media type read.
    UnsupportedContentType(String),
}

pub enum HeaderError {
    MissingHeader(Seq<char>),
    InvalidUrl(Seq<char>),
    InvalidContentLength(Seq<char>),
    ContentLengthTooLarge(u64),
    UnsupportedContentType(Seq<char>),
}

/// What a header block says, as values.
pub struct HeaderView {
    pub host: Seq<char>,
    pub content_type: ContentType,
    pub content_length: u64,
    pub other: Map<Seq<char>, Seq<char>>,
}

impl View for Host {
    type V = Seq<char>;

    closed spec fn view(&self) -> Seq<char> {
        self.0@
    }
}

impl View for ContentType {
    type V = ContentType;

    open spec fn view(&self) -> ContentType {
        *self
    }
}

impl View for ContentLength {
    type V = u64;

    closed spec fn view(&self) -> u64 {
        self.0
    }
}

impl View for OtherHeaders {
    type V = Map<Seq<char>, Seq<char>>;

    closed spec fn view(&self) -> Map<Seq<char>, Seq<char>> {
        self.0@
    }
}

impl View for Header {
    type V = HeaderView;

    open spec fn view(&self) -> HeaderView {
        HeaderView {
            host: self.host@,
            content_type: self.content_type,
            content_length: self.content_length@,
            other: self.other_headers@,
        }
    }
}

impl View for ParseError {
    type V = HeaderError;

    open spec fn view(&self) -> HeaderError {
        match self {
            ParseError::MissingHeader(n) => HeaderError::MissingHeader(n@),
            ParseError::InvalidUrl(v) => HeaderError::InvalidUrl(v@),
            ParseError::InvalidContentLength(v) => HeaderError::InvalidContentLength(v@),
            ParseError::ContentLengthTooLarge(n) => HeaderError::ContentLengthTooLarge(*n),
            ParseError::UnsupportedContentType(t) => HeaderError::UnsupportedContentType(t@),
        }
    }
}

pub open spec fn host_of(s: Seq<char>) -> Result<Seq<char>, HeaderError> {
    if is_absolute_url(s) {
        Ok(s)
    } else {
        Err(HeaderError::InvalidUrl(s))
    }
}

/// The media type of a Content-Type value: what stands before the first `;`.
pub open spec fn media_type_of(s: Seq<char>) -> Seq<char> {
    s.take(find_char(s, ';') as int)
}

pub open spec fn content_type_text(t: ContentType) -> Seq<char> {
    match t {
        ContentType::TextPlain => "text/plain"@,
        ContentType::TextHtml => "text/html"@,
        ContentType::ApplicationJson => "application/json"@,
    }
}

pub open spec fn content_type_of(s: Seq<char>) -> Result<ContentType, HeaderError> {
    let m = media_type_of(s);
    if m == content_type_text(ContentType::TextPlain) {
        Ok(ContentType::TextPlain)
    } else if m == content_type_text(ContentType::TextHtml) {
        Ok(ContentType::TextHtml)
    } else if m == content_type_text(ContentType::ApplicationJson) {
        Ok(ContentType::ApplicationJson)
    } else {
        Err(HeaderError::UnsupportedContentType(m))
    }
}

pub open spec fn content_length_of(s: Seq<char>) -> Result<u64, HeaderError> {
    if parses_as_u64(s) {
        Ok(u64_value(s) as u64)
    } else {
        Err(HeaderError::InvalidContentLength(s))
    }
}

/// What building the header block from the field map `m` gives. Host is
/// required; Content-Type defaults to `text/plain` and Content-Length to 0.
pub open spec fn header_of(m: Map<Seq<char>, Seq<char>>) -> Result<HeaderView, HeaderError> {
    if !m.dom().contains("host"@) {
        Err(HeaderError::MissingHeader("host"@))
    } else {
        match host_of(m["host"@]) {
            Err(e) => Err(e),
            Ok(host) => {
                let content_type = if m.dom().contains("content-type"@) {
                    content_type_of(m["content-type"@])
                } else {
                    Ok(ContentType::TextPlain)
                };
                match content_type {
                    Err(e) => Err(e),
                    Ok(content_type) => {
                        let content_length = if m.dom().contains("content-length"@) {
                            content_length_of(m["content-length"@])
                        } else {
                            Ok(0u64)
                        };
                        match content_length {
                            Err(e) => Err(e),
                            Ok(content_length) => Ok(
                                HeaderView {
                                    host,
                                    content_type,
                                    content_length,
                                    other: m.remove("host"@).remove("content-type"@).remove(
                                        "content-length"@,
                                    ),
                                },
                            ),
                        }
                    },
                }
            },
        }
    }
}

/// `Name: value`, the name capitalized.
pub open spec fn field_line(name: Seq<char>, value: Seq<char>) -> Seq<char> {
    capitalized(name) + ": "@ + value
}

pub open spec fn field_lines(fields: Fields) -> Seq<Seq<char>> {
    fields.map_values(|p: (Seq<char>, Seq<char>)| field_line(p.0, p.1))
}

impl Host {
    pub fn parse(s: &str) -> (r: Result<Host, ParseError>)
        ensures
            view_of_result(r) == host_of(s@),
    {
        if parses_as_url(s) {
            Ok(Host(s.to_owned()))
        } else {
            Err(ParseError::InvalidUrl(s.to_owned()))
        }
    }

    pub fn as_str(&self) -> (r: &str)
        ensures
            r@ == self@,
    {
        self.0.as_str()
    }
}

impl ContentType {
    /// The media type, as in `text/plain`.
    pub fn as_str(&self) -> (r: &'static str)
        ensures
            r@ == content_type_text(*self),
    {
        match self {
            ContentType::TextPlain => "text/plain",
            ContentType::TextHtml => "text/html",
            ContentType::ApplicationJson => "application/json",
        }
    }

    /// Reads a Content-Type value; parameters after `;` are dropped unread.
    pub fn parse(s: &str) -> (r: Result<ContentType, ParseError>)
        ensures
            view_of_result(r) == content_type_of(s@),
    {
        let cut = find(s, ';');
        let m = s.substring_char(0, cut);
        assert(m@ == media_type_of(s@));
        if str_eq(m, "text/plain") {
            Ok(ContentType::TextPlain)
        } else if str_eq(m, "text/html") {
            Ok(ContentType::TextHtml)
        } else if str_eq(m, "application/json") {
            Ok(ContentType::ApplicationJson)
        } else {
            Err(ParseError::UnsupportedContentType(m.to_owned()))
        }
    }
}

impl ContentLength {
    pub fn new(content_length: u64) -> (r: ContentLength)
        ensures
            r@ == content_length,
    {
        ContentLength(content_length)
    }

    pub fn value(&self) -> (r: u64)
        ensures
            r == self@,
    {
        self.0
    }

    pub fn parse(s: &str) -> (r: Result<ContentLength, ParseError>)
        ensures
            view_of_result(r) == content_length_of(s@),
    {
        match parse_u64(s) {
            Some(n) => Ok(ContentLength(n)),
            None => Err(ParseError::InvalidContentLength(s.to_owned())),
        }
    }

    /// The length as a `usize`.
    pub fn to_usize(&self) -> (r: Result<usize, ParseError>)
        ensures
            self@ <= usize::MAX ==> (r matches Ok(n) && n == self@),
            self@ > usize::MAX ==> (r matches Err(ParseError::ContentLengthTooLarge(n)) && n
                == self@),
    {
        if self.0 <= usize::MAX as u64 {
            Ok(self.0 as usize)
        } else {
            Err(ParseError::ContentLengthTooLarge(self.0))
        }
    }
}

impl OtherHeaders {
    /// The fields in the order they are written out.
    pub closed spec fn fields(&self) -> Fields {
        self.0.fields()
    }

    pub closed spec fn wf(&self) -> bool {
        self.0.wf()
    }

    pub fn from(fields: RawHeaders) -> (r: OtherHeaders)
        ensures
            r@ == fields@,
            r.fields() == fields.fields(),
            fields.wf() ==> r.wf(),
    {
        OtherHeaders(fields)
    }

    pub fn new() -> (r: OtherHeaders)
        ensures
            r@ == Map::<Seq<char>, Seq<char>>::empty(),
            r.fields() == Seq::<(Seq<char>, Seq<char>)>::empty(),
            r.wf(),
    {
        OtherHeaders(RawHeaders::new())
    }

    /// The lines `Name: value`, one for each field, in order.
    pub fn lines(&self) -> (r: Vec<String>)
        ensures
            string_views(r@) == field_lines(self.fields()),
    {
        let mut out: Vec<String> = Vec::new();
        let n = self.0.len();
        let mut i: usize = 0;
        while i < n
            invariant
                n == self.fields().len(),
                i <= n,
                string_views(out@) =~= field_lines(self.fields()).subrange(0, i as int),
            decreases n - i,
        {
            let (name, value) = self.0.entry(i);
            let mut line = capitalize(name.as_str());
            line.append(": ");
            line.append(value.as_str());
            let ghost before = string_views(out@);
            let ghost l = line@;
            out.push(line);
            assert(string_views(out@) =~= before.push(l));
            i = i + 1;
        }
        out
    }
}

/// The lines of a header block: Host, Content-Type, Content-Length, then the others.
pub open spec fn header_lines(h: &Header) -> Seq<Seq<char>> {
    seq![
        field_line("host"@, h.host@),
        field_line("content-type"@, content_type_text(h.content_type)),
        field_line("content-length"@, digits_of(h.content_length@ as nat)),
    ] + field_lines(h.other_headers.fields())
}

/// The header block as written: its lines joined by CRLF.
pub open spec fn header_text(h: &Header) -> Seq<char> {
    joined(header_lines(h), "\r\n"@)
}

impl Header {
    pub fn new(
        host: Host,
        content_type: ContentType,
        content_length: ContentLength,
        other_headers: OtherHeaders,
    ) -> (r: Header)
        ensures
            r.host@ == host@,
            r.content_type == content_type,
            r.content_length == content_length,
            r.other_headers@ == other_headers@,
            r.other_headers.fields() == other_headers.fields(),
    {
        Header { host, content_type, content_length, other_headers }
    }

    /// Builds the header block from the fields read off the wire.
    pub fn parse(fields: RawHeaders) -> (r: Result<Header, ParseError>)
        requires
            fields.wf(),
        ensures
            view_of_result(r) == header_of(fields@),
            r matches Ok(h) ==> h.other_headers.wf(),
    {
        proof {
            reveal_strlit("host");
            reveal_strlit("content-type");
            reveal_strlit("content-length");
            assert("host"@.len() == 4);
            assert("content-type"@.len() == 12);
            assert("content-length"@.len() == 14);
        }
        let mut fields = fields;
        let host = match fields.remove("host") {
            None => return Err(ParseError::MissingHeader("host".to_owned())),
            Some(v) => match Host::parse(v.as_str()) {
                Ok(h) => h,
                Err(e) => return Err(e),
            },
        };
        let content_type = match fields.remove("content-type") {
            None => ContentType::TextPlain,
            Some(v) => match ContentType::parse(v.as_str()) {
                Ok(t) => t,
                Err(e) => return Err(e),
            },
        };
        let content_length = match fields.remove("content-length") {
            None => ContentLength(0),
            Some(v) => match ContentLength::parse(v.as_str()) {
                Ok(n) => n,
                Err(e) => return Err(e),
            },
        };
        Ok(Header { host, content_type, content_length, other_headers: OtherHeaders(fields) })
    }

    /// The header block: its lines joined by CRLF, with no CRLF after the last.
    pub fn to_text(&self) -> (r: String)
        ensures
            r@ == header_text(self),
    {
        let mut lines: Vec<String> = Vec::new();
        let mut host_line = capitalize("host");
        host_line.append(": ");
        host_line.append(self.host.as_str());
        lines.push(host_line);
        let mut type_line = capitalize("content-type");
        type_line.append(": ");
        type_line.append(self.content_type.as_str());
        lines.push(type_line);
        let mut length_line = capitalize("content-length");
        length_line.append(": ");
        length_line.append(decimal(self.content_length.value()).as_str());
        lines.push(length_line);
        let others = self.other_headers.lines();
        let mut i: usize = 0;
        while i < others.len()
            invariant
                i <= others.len(),
                string_views(lines@) =~= header_lines(self).subrange(0, 3 + i),
                string_views(others@) == field_lines(self.other_headers.fields()),
                header_lines(self).len() == 3 + others.len(),
            decreases others.len() - i,
        {
            let ghost before = string_views(lines@);
            let line = others[i].clone();
            assert(line@ == string_views(others@)[i as int]);
            lines.push(line);
            assert(string_views(lines@) =~= before.push(header_lines(self)[3 + i]));
            i = i + 1;
        }
        assert(header_lines(self).subrange(0, 3 + i) =~= header_lines(self));
        join(&lines, "\r\n")
    }
}

/// A header block without a Host field fails naming `host`; one whose Host
/// value is no absolute URL fails as an invalid URL.
pub proof fn lemma_host_required(m: Map<Seq<char>, Seq<char>>)
    ensures
        !m.dom().contains("host"@) ==> header_of(m) == Err::<HeaderView, HeaderError>(
            HeaderError::MissingHeader("host"@),
        ),
        m.dom().contains("host"@) && !is_absolute_url(m["host"@]) ==> header_of(m) == Err::<
            HeaderView,
            HeaderError,
        >(HeaderError::InvalidUrl(m["host"@])),
{
}

/// A Content-Length written as the decimal form of any `u64` reads back as that number.
pub proof fn lemma_content_length_round_trip(n: u64)
    ensures
        content_length_of(digits_of(n as nat)) == Ok::<u64, HeaderError>(n),
{
    lemma_u64_round_trip(n);
}

/// Without Content-Type and Content-Length fields a valid header block reads
/// as `text/plain` with length 0.
pub proof fn lemma_header_defaults(m: Map<Seq<char>, Seq<char>>)
    requires
        m.dom().contains("host"@),
        is_absolute_url(m["host"@]),
        !m.dom().contains("content-type"@),
        !m.dom().contains("content-length"@),
    ensures
        header_of(m) is Ok,
        header_of(m)->Ok_0.content_type == ContentType::TextPlain,
        header_of(m)->Ok_0.content_length == 0,
{
}

} // verus!
