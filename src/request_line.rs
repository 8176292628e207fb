//! The request line: `METHOD SP PATH SP VERSION`.

use vstd::prelude::*;

use crate::text::{
    ascii_words, is_ascii_space, is_space, lemma_words_scan_space, lemma_words_scan_word,
    split_ascii_whitespace, str_eq, string_views, trim, trim_end_of, trim_of, trim_start_of,
    words_scan,
};
use crate::view_of_result;

verus! {

/// The supported request methods.
#[derive(Debug, Clone, Copy, PartialEq, Eq, Structural)]
pub enum RequestType {
    Get,
    Post,
    Put,
    Delete,
}

/// The supported protocol versions.
#[derive(Debug, Clone, Copy, PartialEq, Eq, Structural)]
pub enum HttpVersionEnum {
    V1_1,
}

/// A protocol version as it stands on a request or response line.
#[derive(Debug, Clone, Copy, PartialEq, Eq, Structural)]
pub struct HttpVersion(pub HttpVersionEnum);

/// The request target, taken verbatim; never empty once parsed.
#[derive(Debug)]
pub struct Path(String);

#[derive(Debug)]
pub struct RequestLine {
    pub request_type: RequestType,
    pub uri: Path,
    pub http_version: HttpVersion,
}

#[derive(Debug)]
pub enum ParseError {
    /// The line does not hold exactly three words; the count found.
    InvalidRequestLineLength(usize),
    /// The first word names no supported method.
    InvalidRequestType(String),
    /// The path is empty.
    EmptyPath,
    /// The last word is no supported `HTTP/<version>`.
    InvalidHttpVersion(String),
}

/// What a request line says, as values.
pub struct RequestLineView {
    pub request_type: RequestType,
    pub path: Seq<char>,
    pub version: HttpVersionEnum,
}

pub enum LineError {
    InvalidRequestLineLength(nat),
    InvalidRequestType(Seq<char>),
    EmptyPath,
    InvalidHttpVersion(Seq<char>),
}

impl View for Path {
    type V = Seq<char>;

    closed spec fn view(&self) -> Seq<char> {
        self.0@
    }
}

impl View for RequestLine {
    type V = RequestLineView;

    open spec fn view(&self) -> RequestLineView {
        RequestLineView {
            request_type: self.request_type,
            path: self.uri@,
            version: self.http_version.0,
        }
    }
}

impl View for ParseError {
    type V = LineError;

    open spec fn view(&self) -> LineError {
        match self {
            ParseError::InvalidRequestLineLength(n) => LineError::InvalidRequestLineLength(*n as nat),
            ParseError::InvalidRequestType(t) => LineError::InvalidRequestType(t@),
            ParseError::EmptyPath => LineError::EmptyPath,
            ParseError::InvalidHttpVersion(t) => LineError::InvalidHttpVersion(t@),
        }
    }
}

/// The wire name of a method.
pub open spec fn method_text(m: RequestType) -> Seq<char> {
    match m {
        RequestType::Get => "GET"@,
        RequestType::Post => "POST"@,
        RequestType::Put => "PUT"@,
        RequestType::Delete => "DELETE"@,
    }
}

/// The version number of a supported version.
pub open spec fn version_number(v: HttpVersionEnum) -> Seq<char> {
    match v {
        HttpVersionEnum::V1_1 => "1.1"@,
    }
}

/// The wire form of a version: `HTTP/<number>`.
pub open spec fn version_text(v: HttpVersionEnum) -> Seq<char> {
    "HTTP/"@ + version_number(v)
}

/// The method that a word names, matched exactly.
pub open spec fn request_type_of(t: Seq<char>) -> Result<RequestType, LineError> {
    if t == method_text(RequestType::Get) {
        Ok(RequestType::Get)
    } else if t == method_text(RequestType::Post) {
        Ok(RequestType::Post)
    } else if t == method_text(RequestType::Put) {
        Ok(RequestType::Put)
    } else if t == method_text(RequestType::Delete) {
        Ok(RequestType::Delete)
    } else {
        Err(LineError::InvalidRequestType(t))
    }
}

pub open spec fn path_of(t: Seq<char>) -> Result<Seq<char>, LineError> {
    if t.len() == 0 {
        Err(LineError::EmptyPath)
    } else {
        Ok(t)
    }
}

/// The version that a word names: once trimmed, `HTTP/` and a supported number.
pub open spec fn http_version_of(t: Seq<char>) -> Result<HttpVersionEnum, LineError> {
    if trim_of(t) == version_text(HttpVersionEnum::V1_1) {
        Ok(HttpVersionEnum::V1_1)
    } else {
        Err(LineError::InvalidHttpVersion(t))
    }
}

/// What parsing the line `s` gives.
pub open spec fn request_line_of(s: Seq<char>) -> Result<RequestLineView, LineError> {
    let w = ascii_words(s);
    if w.len() != 3 {
        Err(LineError::InvalidRequestLineLength(w.len()))
    } else {
        match request_type_of(w[0]) {
            Err(e) => Err(e),
            Ok(m) => match path_of(w[1]) {
                Err(e) => Err(e),
                Ok(p) => match http_version_of(w[2]) {
                    Err(e) => Err(e),
                    Ok(v) => Ok(RequestLineView { request_type: m, path: p, version: v }),
                },
            },
        }
    }
}

impl RequestType {
    /// The wire name of this method.
    pub fn as_str(&self) -> (r: &'static str)
        ensures
            r@ == method_text(*self),
    {
        match self {
            RequestType::Get => "GET",
            RequestType::Post => "POST",
            RequestType::Put => "PUT",
            RequestType::Delete => "DELETE",
        }
    }

    pub fn parse(s: &str) -> (r: Result<RequestType, ParseError>)
        ensures
            view_of_result(r) == request_type_of(s@),
    {
        if str_eq(s, "GET") {
            Ok(RequestType::Get)
        } else if str_eq(s, "POST") {
            Ok(RequestType::Post)
        } else if str_eq(s, "PUT") {
            Ok(RequestType::Put)
        } else if str_eq(s, "DELETE") {
            Ok(RequestType::Delete)
        } else {
            Err(ParseError::InvalidRequestType(s.to_owned()))
        }
    }
}

impl View for RequestType {
    type V = RequestType;

    open spec fn view(&self) -> RequestType {
        *self
    }
}

impl View for HttpVersion {
    type V = HttpVersionEnum;

    open spec fn view(&self) -> HttpVersionEnum {
        self.0
    }
}

impl Path {
    pub fn new(path: String) -> (r: Path)
        ensures
            r@ == path@,
    {
        Path(path)
    }

    pub fn get_path(&self) -> (r: &str)
        ensures
            r@ == self@,
    {
        self.0.as_str()
    }

    pub fn parse(s: &str) -> (r: Result<Path, ParseError>)
        ensures
            view_of_result(r) == path_of(s@),
    {
        if s.unicode_len() == 0 {
            Err(ParseError::EmptyPath)
        } else {
            Ok(Path(s.to_owned()))
        }
    }
}

impl HttpVersionEnum {
    /// The version number, as in `1.1`.
    pub fn as_str(&self) -> (r: &'static str)
        ensures
            r@ == version_number(*self),
    {
        match self {
            HttpVersionEnum::V1_1 => "1.1",
        }
    }
}

impl HttpVersion {
    pub fn new(http_version: HttpVersionEnum) -> (r: HttpVersion)
        ensures
            r.0 == http_version,
    {
        HttpVersion(http_version)
    }

    /// The wire form, as in `HTTP/1.1`.
    pub fn to_text(&self) -> (r: String)
        ensures
            r@ == version_text(self.0),
    {
        let mut r = "HTTP/".to_owned();
        r.append(self.0.as_str());
        r
    }

    pub fn parse(s: &str) -> (r: Result<HttpVersion, ParseError>)
        ensures
            view_of_result(r) == http_version_of(s@),
    {
        let t = trim(s);
        let v1_1 = HttpVersion(HttpVersionEnum::V1_1).to_text();
        if str_eq(t, v1_1.as_str()) {
            Ok(HttpVersion(HttpVersionEnum::V1_1))
        } else {
            Err(ParseError::InvalidHttpVersion(s.to_owned()))
        }
    }
}

impl RequestLine {
    pub fn new(request_type: RequestType, uri: Path, http_version: HttpVersion) -> (r: RequestLine)
        ensures
            r.request_type == request_type,
            r.uri@ == uri@,
            r.http_version == http_version,
    {
        RequestLine { request_type, uri, http_version }
    }

    /// Parses `METHOD SP PATH SP VERSION`, the words split on ASCII whitespace.
    pub fn parse(s: &str) -> (r: Result<RequestLine, ParseError>)
        ensures
            view_of_result(r) == request_line_of(s@),
    {
        let words = split_ascii_whitespace(s);
        proof {
            assert(string_views(words@).len() == words@.len());
        }
        if words.len() != 3 {
            return Err(ParseError::InvalidRequestLineLength(words.len()));
        }
        assert(string_views(words@)[0] == words@[0]@);
        assert(string_views(words@)[1] == words@[1]@);
        assert(string_views(words@)[2] == words@[2]@);
        let request_type = match RequestType::parse(words[0].as_str()) {
            Ok(m) => m,
            Err(e) => return Err(e),
        };
        let uri = match Path::parse(words[1].as_str()) {
            Ok(p) => p,
            Err(e) => return Err(e),
        };
        let http_version = match HttpVersion::parse(words[2].as_str()) {
            Ok(v) => v,
            Err(e) => return Err(e),
        };
        Ok(RequestLine { request_type, uri, http_version })
    }
}

proof fn lemma_method_texts(m: RequestType)
    ensures
        method_text(m).len() > 0,
        forall|k: int|
            0 <= k < method_text(m).len() ==> !is_ascii_space(#[trigger] method_text(m)[k]),
        request_type_of(method_text(m)) == Ok::<RequestType, LineError>(m),
{
    reveal_strlit("GET");
    reveal_strlit("POST");
    reveal_strlit("PUT");
    reveal_strlit("DELETE");
    assert("GET"@.len() == 3);
    assert("PUT"@.len() == 3);
    assert("POST"@.len() == 4);
    assert("DELETE"@.len() == 6);
    assert("GET"@[0] != "PUT"@[0]);
}

proof fn lemma_version_text()
    ensures
        version_text(HttpVersionEnum::V1_1) == "HTTP/1.1"@,
        version_text(HttpVersionEnum::V1_1).len() == 8,
        forall|k: int|
            0 <= k < version_text(HttpVersionEnum::V1_1).len() ==> !is_ascii_space(
                #[trigger] version_text(HttpVersionEnum::V1_1)[k],
            ),
        trim_of(version_text(HttpVersionEnum::V1_1)) == version_text(HttpVersionEnum::V1_1),
{
    reveal_strlit("HTTP/");
    reveal_strlit("1.1");
    reveal_strlit("HTTP/1.1");
    let v = version_text(HttpVersionEnum::V1_1);
    assert(v =~= "HTTP/1.1"@);
    assert(!is_space(v[0]));
    assert(trim_start_of(v) == v);
    assert(!is_space(v.last()));
    assert(trim_end_of(v) == v);
}

/// Every line `<M> <path> HTTP/1.1`, with a supported method `M` and a
/// non-empty path free of ASCII whitespace, parses to exactly those parts,
/// and the parsed version writes back as `HTTP/1.1`.
pub proof fn lemma_request_line_round_trip(m: RequestType, path: Seq<char>)
    requires
        path.len() > 0,
        forall|k: int| 0 <= k < path.len() ==> !is_ascii_space(#[trigger] path[k]),
    ensures
        request_line_of(method_text(m) + " "@ + path + " "@ + "HTTP/1.1"@) == Ok::<
            RequestLineView,
            LineError,
        >(RequestLineView { request_type: m, path: path, version: HttpVersionEnum::V1_1 }),
        version_text(HttpVersionEnum::V1_1) == "HTTP/1.1"@,
{
    reveal_strlit(" ");
    assert(" "@ =~= seq![' ']);
    lemma_method_texts(m);
    lemma_version_text();
    let mt = method_text(m);
    let v = version_text(HttpVersionEnum::V1_1);
    let e = Seq::<char>::empty();
    assert(words_scan(e) == (Seq::<Seq<char>>::empty(), e));
    lemma_words_scan_word(e, mt);
    assert(e + mt =~= mt);
    lemma_words_scan_space(mt);
    let a1 = mt + seq![' '];
    lemma_words_scan_word(a1, path);
    let a2 = a1 + path;
    lemma_words_scan_space(a2);
    let a3 = a2 + seq![' '];
    lemma_words_scan_word(a3, v);
    let a4 = a3 + v;
    assert(a4 =~= method_text(m) + " "@ + path + " "@ + "HTTP/1.1"@);
    let w = ascii_words(a4);
    assert(w =~= seq![mt, path, v]);
}

} // verus!
