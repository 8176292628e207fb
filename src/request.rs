//! The request side: a line-oriented assembler that separates the request
//! line, the header block and a length-prefixed body.

use vstd::prelude::*;
use vstd::slice::slice_to_vec;
use vstd::utf8::{decode_utf8, valid_utf8};

use crate::body::{self, body_of, utf8_to_string, Body, BodyError, BodyView};
use crate::header::{self, header_of, Header, HeaderError, HeaderView};
use crate::raw_headers::RawHeaders;
use crate::request_line::{request_line_of, RequestLine, RequestLineView};
use crate::text::{
    ascii_lowercase_of, find, find_char, trim, trim_end, trim_end_of, trim_of, trim_start,
    trim_start_of,
};

verus! {

#[derive(Debug)]
pub struct RequestMessage {
    pub request_line: RequestLine,
    pub header: Header,
    pub body: Body,
}

#[derive(Debug)]
pub enum RequestMessageError {
    /// The header block ended without a request line.
    RequestLineNotFound,
    /// A second line of request-line shape; that line.
    MultipleRequestLines(String),
    /// The input ended before the blank line that ends the header block.
    UnexpectedEof,
    /// A line of the header block is not UTF-8.
    Utf8ConversionError,
    /// Fewer body bytes followed the header block than Content-Length declares; the declared length.
    BodyTruncated(usize),
    HeaderParseError(header::ParseError),
    BodyParseError(body::ParseError),
    /// No handler serves this path.
    UnknownRoute(String),
}

pub enum RequestError {
    RequestLineNotFound,
    MultipleRequestLines(Seq<char>),
    UnexpectedEof,
    Utf8ConversionError,
    BodyTruncated(nat),
    HeaderParseError(HeaderError),
    BodyParseError(BodyError),
    UnknownRoute(Seq<char>),
}

impl View for RequestMessageError {
    type V = RequestError;

    open spec fn view(&self) -> RequestError {
        match self {
            RequestMessageError::RequestLineNotFound => RequestError::RequestLineNotFound,
            RequestMessageError::MultipleRequestLines(l) => RequestError::MultipleRequestLines(l@),
            RequestMessageError::UnexpectedEof => RequestError::UnexpectedEof,
            RequestMessageError::Utf8ConversionError => RequestError::Utf8ConversionError,
            RequestMessageError::BodyTruncated(n) => RequestError::BodyTruncated(*n as nat),
            RequestMessageError::HeaderParseError(e) => RequestError::HeaderParseError(e@),
            RequestMessageError::BodyParseError(e) => RequestError::BodyParseError(e@),
            RequestMessageError::UnknownRoute(p) => RequestError::UnknownRoute(p@),
        }
    }
}

/// How the assembler reads one line of the header block.
pub enum LineKind {
    /// Nothing but whitespace: the end of the header block.
    Blank,
    /// A line of request-line shape.
    Request(RequestLineView),
    /// `name: value`, split at the first `:`.
    Field(Seq<char>, Seq<char>),
    /// Anything else, passed over.
    Ignored,
}

/// The kind of `line`, judged on the line without surrounding whitespace.
pub open spec fn line_kind(line: Seq<char>) -> LineKind {
    let t = trim_of(line);
    if t.len() == 0 {
        LineKind::Blank
    } else if request_line_of(t) is Ok {
        LineKind::Request(request_line_of(t)->Ok_0)
    } else if find_char(t, ':') < t.len() {
        let i = find_char(t, ':') as int;
        LineKind::Field(trim_end_of(t.take(i)), trim_start_of(t.skip(i + 1)))
    } else {
        LineKind::Ignored
    }
}

/// What the assembler holds between lines.
pub struct HeadView {
    pub request_line: Option<RequestLineView>,
    pub fields: Map<Seq<char>, Seq<char>>,
}

/// One line read into the state `st`: the next state, and whether the header block is complete.
pub open spec fn head_step(st: HeadView, line: Seq<char>) -> Result<(HeadView, bool), RequestError> {
    match line_kind(line) {
        LineKind::Blank => Ok((st, true)),
        LineKind::Request(rl) => if st.request_line is None {
            Ok((HeadView { request_line: Some(rl), fields: st.fields }, false))
        } else {
            Err(RequestError::MultipleRequestLines(trim_of(line)))
        },
        LineKind::Field(name, value) => Ok(
            (
                HeadView {
                    request_line: st.request_line,
                    fields: st.fields.insert(ascii_lowercase_of(name), value),
                },
                false,
            ),
        ),
        LineKind::Ignored => Ok((st, false)),
    }
}

/// The request line and header block of a completed state.
pub open spec fn head_result(st: HeadView) -> Result<(RequestLineView, HeaderView), RequestError> {
    match st.request_line {
        None => Err(RequestError::RequestLineNotFound),
        Some(rl) => match header_of(st.fields) {
            Err(e) => Err(RequestError::HeaderParseError(e)),
            Ok(h) => Ok((rl, h)),
        },
    }
}

/// The assembler's state while it reads the header block line by line.
pub struct HeadParser {
    request_line: Option<RequestLine>,
    fields: RawHeaders,
}

impl HeadParser {
    pub closed spec fn wf(&self) -> bool {
        self.fields.wf()
    }

    pub closed spec fn view(&self) -> HeadView {
        HeadView {
            request_line: match self.request_line {
                Some(l) => Some(l@),
                None => None,
            },
            fields: self.fields@,
        }
    }

    pub fn new() -> (r: HeadParser)
        ensures
            r.wf(),
            r@.request_line is None,
            r@.fields == Map::<Seq<char>, Seq<char>>::empty(),
    {
        HeadParser { request_line: None, fields: RawHeaders::new() }
    }

    /// Reads one line of the header block (its line ending may be included);
    /// `Ok(true)` when it was the blank line that ends the block.
    pub fn feed_line(&mut self, line: &str) -> (r: Result<bool, RequestMessageError>)
        requires
            old(self).wf(),
        ensures
            final(self).wf(),
            match r {
                Ok(done) => head_step(old(self)@, line@) == Ok::<(HeadView, bool), RequestError>(
                    (final(self)@, done),
                ),
                Err(e) => head_step(old(self)@, line@) == Err::<(HeadView, bool), RequestError>(
                    e@,
                ),
            },
    {
        let t = trim(line);
        let n = t.unicode_len();
        if n == 0 {
            return Ok(true);
        }
        match RequestLine::parse(t) {
            Ok(rl) => {
                if self.request_line.is_none() {
                    self.request_line = Some(rl);
                    Ok(false)
                } else {
                    Err(RequestMessageError::MultipleRequestLines(t.to_owned()))
                }
            },
            Err(_) => {
                let i = find(t, ':');
                if i < n {
                    let name = trim_end(t.substring_char(0, i));
                    let value = trim_start(t.substring_char(i + 1, n));
                    assert(t@.subrange(0, i as int) =~= t@.take(i as int));
                    assert(t@.subrange(i + 1, n as int) =~= t@.skip(i + 1));
                    self.fields.insert(name, value.to_owned());
                }
                Ok(false)
            },
        }
    }

    /// The request line and header block, once the blank line has been read.
    pub fn finish(self) -> (r: Result<(RequestLine, Header), RequestMessageError>)
        requires
            self.wf(),
        ensures
            match r {
                Ok((l, h)) => head_result(self@) == Ok::<(RequestLineView, HeaderView), RequestError>(
                    (l@, h@),
                ),
                Err(e) => head_result(self@) == Err::<(RequestLineView, HeaderView), RequestError>(
                    e@,
                ),
            },
    {
        let request_line = match self.request_line {
            None => return Err(RequestMessageError::RequestLineNotFound),
            Some(l) => l,
        };
        match Header::parse(self.fields) {
            Ok(h) => Ok((request_line, h)),
            Err(e) => Err(RequestMessageError::HeaderParseError(e)),
        }
    }
}

/// Index just past the first line feed at or after `pos`, or the input's end.
pub open spec fn line_end(input: Seq<u8>, pos: int) -> int
    decreases input.len() - pos,
{
    if pos >= input.len() {
        input.len() as int
    } else if input[pos] == 10 {
        pos + 1
    } else {
        line_end(input, pos + 1)
    }
}

pub proof fn lemma_line_end(input: Seq<u8>, pos: int)
    requires
        0 <= pos < input.len(),
    ensures
        pos < line_end(input, pos) <= input.len(),
    decreases input.len() - pos,
{
    if input[pos] != 10 {
        if pos + 1 < input.len() {
            lemma_line_end(input, pos + 1);
        } else {
            assert(line_end(input, pos + 1) == input.len());
        }
    }
}

/// The state before the first line.
pub open spec fn head_start() -> HeadView {
    HeadView { request_line: None, fields: Map::empty() }
}

/// Reading lines of `input` from `pos` on, in state `st`, up to the blank line:
/// the state then and the index where the body starts.
pub open spec fn head_run(input: Seq<u8>, pos: int, st: HeadView) -> Result<
    (HeadView, int),
    RequestError,
>
    decreases input.len() - pos,
{
    if !(0 <= pos < input.len()) {
        Err(RequestError::UnexpectedEof)
    } else {
        let end = line_end(input, pos);
        proof {
            lemma_line_end(input, pos);
        }
        let bytes = input.subrange(pos, end);
        if !valid_utf8(bytes) {
            Err(RequestError::Utf8ConversionError)
        } else {
            match head_step(st, decode_utf8(bytes)) {
                Err(e) => Err(e),
                Ok((next, done)) => if done {
                    Ok((next, end))
                } else {
                    head_run(input, end, next)
                },
            }
        }
    }
}

/// The body that follows a header block: empty for a zero length, else the
/// next `n` bytes decoded under the declared media type.
pub open spec fn body_after(input: Seq<u8>, start: int, h: HeaderView) -> Result<BodyView, RequestError> {
    let n = h.content_length;
    if n > usize::MAX {
        Err(RequestError::HeaderParseError(HeaderError::ContentLengthTooLarge(n)))
    } else if input.len() - start < n {
        Err(RequestError::BodyTruncated(n as nat))
    } else if n == 0 {
        Ok(BodyView::TextPlain(Seq::empty()))
    } else {
        match body_of(input.subrange(start, start + n), h.content_type) {
            Err(e) => Err(RequestError::BodyParseError(e)),
            Ok(b) => Ok(b),
        }
    }
}

/// What reading a whole request from `input` gives.
pub open spec fn request_of(input: Seq<u8>) -> Result<
    (RequestLineView, HeaderView, BodyView),
    RequestError,
> {
    match head_run(input, 0, head_start()) {
        Err(e) => Err(e),
        Ok((st, start)) => match head_result(st) {
            Err(e) => Err(e),
            Ok((rl, h)) => match body_after(input, start, h) {
                Err(e) => Err(e),
                Ok(b) => Ok((rl, h, b)),
            },
        },
    }
}

/// Index just past the first line feed at or after `pos`, or the input's end.
fn next_line_end(input: &[u8], pos: usize) -> (r: usize)
    requires
        pos < input@.len(),
    ensures
        r == line_end(input@, pos as int),
        pos < r <= input@.len(),
{
    let mut i: usize = pos;
    while i < input.len() && input[i] != 10
        invariant
            pos <= i <= input@.len(),
            line_end(input@, pos as int) == line_end(input@, i as int),
        decreases input@.len() - i,
    {
        i = i + 1;
    }
    proof {
        lemma_line_end(input@, pos as int);
    }
    if i < input.len() {
        i + 1
    } else {
        i
    }
}

impl RequestMessage {
    pub fn new(request_line: RequestLine, header: Header, body: Body) -> (r: RequestMessage)
        ensures
            r.request_line@ == request_line@,
            r.header@ == header@,
            r.body@ == body@,
            r.body.text() == body.text(),
    {
        RequestMessage { request_line, header, body }
    }

    /// The number of body bytes to read after the header block.
    pub fn body_length(header: &Header) -> (r: Result<usize, RequestMessageError>)
        ensures
            header@.content_length <= usize::MAX ==> r == Ok::<usize, RequestMessageError>(
                header@.content_length as usize,
            ),
            header@.content_length > usize::MAX ==> (r matches Err(e) && e@
                == RequestError::HeaderParseError(
                HeaderError::ContentLengthTooLarge(header@.content_length),
            )),
    {
        match header.content_length.to_usize() {
            Ok(n) => Ok(n),
            Err(e) => Err(RequestMessageError::HeaderParseError(e)),
        }
    }

    /// Joins a request line, its header block and the body bytes that
    /// followed; no bytes at all give the empty plain-text body.
    pub fn assemble(request_line: RequestLine, header: Header, body_data: Vec<u8>) -> (r: Result<
        RequestMessage,
        RequestMessageError,
    >)
        requires
            body_data@.len() == header@.content_length,
        ensures
            match r {
                Ok(m) => m.request_line@ == request_line@ && m.header@ == header@ && body_after(
                    body_data@,
                    0,
                    header@,
                ) == Ok::<BodyView, RequestError>(m.body@),
                Err(e) => body_after(body_data@, 0, header@) == Err::<BodyView, RequestError>(e@),
            },
    {
        proof {
            assert(body_data@.subrange(0, body_data@.len() as int) =~= body_data@);
        }
        if body_data.len() == 0 {
            return Ok(RequestMessage { request_line, header, body: Body::default() });
        }
        let content_type = header.content_type;
        match Body::parse(body_data, &content_type) {
            Ok(body) => Ok(RequestMessage { request_line, header, body }),
            Err(e) => Err(RequestMessageError::BodyParseError(e)),
        }
    }
}

/// Reads a whole request from `input`: the header block line by line up to
/// its blank line, then as many body bytes as Content-Length declares.
/// Bytes after the body are not read.
pub fn parse_request(input: &[u8]) -> (r: Result<RequestMessage, RequestMessageError>)
    ensures
        match r {
            Ok(m) => request_of(input@) == Ok::<
                (RequestLineView, HeaderView, BodyView),
                RequestError,
            >((m.request_line@, m.header@, m.body@)),
            Err(e) => request_of(input@) == Err::<
                (RequestLineView, HeaderView, BodyView),
                RequestError,
            >(e@),
        },
{
    let mut parser = HeadParser::new();
    let mut pos: usize = 0;
    assert(parser@ == head_start());
    let mut start: usize = 0;
    loop
        invariant_except_break
            pos <= input@.len(),
            parser.wf(),
            head_run(input@, 0, head_start()) == head_run(input@, pos as int, parser@),
        ensures
            parser.wf(),
            start <= input@.len(),
            head_run(input@, 0, head_start()) == Ok::<(HeadView, int), RequestError>(
                (parser@, start as int),
            ),
        decreases input@.len() - pos,
    {
        if pos == input.len() {
            return Err(RequestMessageError::UnexpectedEof);
        }
        let end = next_line_end(input, pos);
        let bytes = slice_to_vec(&input[pos..end]);
        let line = match utf8_to_string(bytes) {
            Some(l) => l,
            None => return Err(RequestMessageError::Utf8ConversionError),
        };
        match parser.feed_line(line.as_str()) {
            Err(e) => return Err(e),
            Ok(true) => {
                start = end;
                break ;
            },
            Ok(false) => {
                pos = end;
            },
        }
    }
    let (request_line, header) = match parser.finish() {
        Ok(parts) => parts,
        Err(e) => return Err(e),
    };
    let n = match RequestMessage::body_length(&header) {
        Ok(n) => n,
        Err(e) => return Err(e),
    };
    if input.len() - start < n {
        return Err(RequestMessageError::BodyTruncated(n));
    }
    let body_data = slice_to_vec(&input[start..start + n]);
    proof {
        assert(body_data@.subrange(0, n as int) =~= body_data@);
    }
    RequestMessage::assemble(request_line, header, body_data)
}

/// A declared length of zero, which is also what an absent Content-Length
/// gives, yields the empty plain-text body whatever the media type, and no
/// byte after the header block is looked at.
pub proof fn lemma_zero_length_body(input: Seq<u8>, start: int, h: HeaderView)
    requires
        h.content_length == 0,
        0 <= start <= input.len(),
    ensures
        body_after(input, start, h) == Ok::<BodyView, RequestError>(
            BodyView::TextPlain(Seq::empty()),
        ),
        forall|other: Seq<u8>|
            start <= other.len() ==> #[trigger] body_after(other, start, h) == body_after(
                input,
                start,
                h,
            ),
{
}

/// Once a request line is held, a second line of request-line shape is an
/// error naming that line; neither line is silently kept.
pub proof fn lemma_second_request_line(st: HeadView, line: Seq<char>)
    requires
        st.request_line is Some,
        line_kind(line) is Request,
    ensures
        head_step(st, line) == Err::<(HeadView, bool), RequestError>(
            RequestError::MultipleRequestLines(trim_of(line)),
        ),
{
}

/// Where reading the header block succeeds, the body starts within the input.
pub proof fn lemma_head_run_bounds(input: Seq<u8>, pos: int, st: HeadView)
    ensures
        head_run(input, pos, st) is Ok ==> pos < head_run(input, pos, st)->Ok_0.1 <= input.len(),
    decreases input.len() - pos,
{
    if 0 <= pos < input.len() {
        let end = line_end(input, pos);
        lemma_line_end(input, pos);
        let bytes = input.subrange(pos, end);
        if valid_utf8(bytes) {
            match head_step(st, decode_utf8(bytes)) {
                Err(_) => {},
                Ok((next, done)) => {
                    if !done {
                        lemma_head_run_bounds(input, end, next);
                    }
                },
            }
        }
    }
}

/// A request whose header block declares a length of zero, or none, is read
/// with the empty plain-text body whatever its media type, and nothing after
/// the header block is read: any input whose header block reads the same
/// gives the same request.
pub proof fn lemma_zero_length_request(input: Seq<u8>)
    requires
        head_run(input, 0, head_start()) is Ok,
        head_result(head_run(input, 0, head_start())->Ok_0.0) is Ok,
        head_result(head_run(input, 0, head_start())->Ok_0.0)->Ok_0.1.content_length == 0,
    ensures
        request_of(input) == Ok::<(RequestLineView, HeaderView, BodyView), RequestError>(
            (
                head_result(head_run(input, 0, head_start())->Ok_0.0)->Ok_0.0,
                head_result(head_run(input, 0, head_start())->Ok_0.0)->Ok_0.1,
                BodyView::TextPlain(Seq::empty()),
            ),
        ),
        forall|other: Seq<u8>|
            #[trigger] head_run(other, 0, head_start()) == head_run(input, 0, head_start())
                ==> request_of(other) == request_of(input),
{
    lemma_head_run_bounds(input, 0, head_start());
    assert forall|other: Seq<u8>|
        #[trigger] head_run(other, 0, head_start()) == head_run(input, 0, head_start())
            implies request_of(other) == request_of(input) by {
        lemma_head_run_bounds(other, 0, head_start());
    }
}

/// Once a request line is held it is never replaced: where reading the rest
/// of the header block succeeds, the request line at its end is that one.
/// (A second line of request-line shape is an error instead.)
pub proof fn lemma_request_line_kept(input: Seq<u8>, pos: int, st: HeadView)
    requires
        st.request_line is Some,
    ensures
        head_run(input, pos, st) is Ok ==> head_run(input, pos, st)->Ok_0.0.request_line
            == st.request_line,
    decreases input.len() - pos,
{
    if 0 <= pos < input.len() {
        let end = line_end(input, pos);
        lemma_line_end(input, pos);
        let bytes = input.subrange(pos, end);
        if valid_utf8(bytes) {
            match head_step(st, decode_utf8(bytes)) {
                Err(_) => {},
                Ok((next, done)) => {
                    if !done {
                        lemma_request_line_kept(input, end, next);
                    }
                },
            }
        }
    }
}

/// The line of `input` that starts at `p` is valid text of request-line shape.
pub open spec fn request_shaped_at(input: Seq<u8>, p: int) -> bool {
    &&& 0 <= p < input.len()
    &&& valid_utf8(input.subrange(p, line_end(input, p)))
    &&& line_kind(decode_utf8(input.subrange(p, line_end(input, p)))) is Request
}

/// Reading the header block from `pos` in state `st` reaches the line that
/// starts at `p`, every line before it read without error or completion.
pub open spec fn reaches(input: Seq<u8>, pos: int, st: HeadView, p: int) -> bool
    decreases input.len() - pos,
{
    if !(0 <= pos < input.len()) {
        false
    } else if pos == p {
        true
    } else {
        let end = line_end(input, pos);
        proof {
            lemma_line_end(input, pos);
        }
        let bytes = input.subrange(pos, end);
        if !valid_utf8(bytes) {
            false
        } else {
            match head_step(st, decode_utf8(bytes)) {
                Err(_) => false,
                Ok((next, done)) => !done && reaches(input, end, next, p),
            }
        }
    }
}

proof fn lemma_reaches_forward(input: Seq<u8>, pos: int, st: HeadView, p: int)
    requires
        reaches(input, pos, st, p),
    ensures
        pos <= p,
    decreases input.len() - pos,
{
    if pos != p {
        let end = line_end(input, pos);
        lemma_line_end(input, pos);
        let next = head_step(st, decode_utf8(input.subrange(pos, end)))->Ok_0.0;
        lemma_reaches_forward(input, end, next, p);
    }
}

proof fn lemma_second_request_line_in_run(input: Seq<u8>, pos: int, st: HeadView, p: int)
    requires
        st.request_line is Some,
        reaches(input, pos, st, p),
        request_shaped_at(input, p),
    ensures
        head_run(input, pos, st) matches Err(RequestError::MultipleRequestLines(_)),
    decreases input.len() - pos,
{
    let end = line_end(input, pos);
    lemma_line_end(input, pos);
    if pos != p {
        let next = head_step(st, decode_utf8(input.subrange(pos, end)))->Ok_0.0;
        lemma_second_request_line_in_run(input, end, next, p);
    }
}

proof fn lemma_two_request_lines_in_run(input: Seq<u8>, pos: int, st: HeadView, p1: int, p2: int)
    requires
        p1 < p2,
        reaches(input, pos, st, p1),
        reaches(input, pos, st, p2),
        request_shaped_at(input, p1),
        request_shaped_at(input, p2),
    ensures
        head_run(input, pos, st) matches Err(RequestError::MultipleRequestLines(_)),
    decreases input.len() - pos,
{
    let end = line_end(input, pos);
    lemma_line_end(input, pos);
    let next = head_step(st, decode_utf8(input.subrange(pos, end)));
    if pos == p1 {
        if st.request_line is None {
            lemma_second_request_line_in_run(input, end, next->Ok_0.0, p2);
        }
    } else {
        lemma_reaches_forward(input, pos, st, p1);
        lemma_two_request_lines_in_run(input, end, next->Ok_0.0, p1, p2);
    }
}

/// Two lines of request-line shape in the header block make the whole read
/// fail with `MultipleRequestLines`; neither line is used.
pub proof fn lemma_two_request_lines(input: Seq<u8>, p1: int, p2: int)
    requires
        p1 < p2,
        reaches(input, 0, head_start(), p1),
        reaches(input, 0, head_start(), p2),
        request_shaped_at(input, p1),
        request_shaped_at(input, p2),
    ensures
        request_of(input) matches Err(RequestError::MultipleRequestLines(_)),
{
    lemma_two_request_lines_in_run(input, 0, head_start(), p1, p2);
}

/// The line of `input` that starts at `p` is a blank line.
pub open spec fn blank_line_at(input: Seq<u8>, p: int) -> bool {
    &&& 0 <= p < input.len()
    &&& valid_utf8(input.subrange(p, line_end(input, p)))
    &&& line_kind(decode_utf8(input.subrange(p, line_end(input, p)))) is Blank
}

proof fn lemma_head_run_saw_blank(input: Seq<u8>, pos: int, st: HeadView)
    ensures
        head_run(input, pos, st) is Ok ==> exists|p: int|
            pos <= p && #[trigger] blank_line_at(input, p) && head_run(input, pos, st)->Ok_0.1
                == line_end(input, p),
    decreases input.len() - pos,
{
    if 0 <= pos < input.len() {
        let end = line_end(input, pos);
        lemma_line_end(input, pos);
        let bytes = input.subrange(pos, end);
        if valid_utf8(bytes) {
            match head_step(st, decode_utf8(bytes)) {
                Err(_) => {},
                Ok((next, done)) => {
                    if done {
                        assert(blank_line_at(input, pos));
                    } else {
                        lemma_head_run_saw_blank(input, end, next);
                    }
                },
            }
        }
    }
}

/// A request is only ever read whole after a blank line has ended its header
/// block: input that stops before such a line always gives an error.
pub proof fn lemma_request_needs_blank_line(input: Seq<u8>)
    ensures
        request_of(input) is Ok ==> exists|p: int| #[trigger] blank_line_at(input, p),
{
    lemma_head_run_saw_blank(input, 0, head_start());
}

} // verus!
