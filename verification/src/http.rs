//! The HTTP side: reading a request piece by piece, deciding what it asks for, and the
//! responses.

use vstd::prelude::*;
use vstd::string::*;
use vstd::utf8::{encode_utf8, is_ascii_chars};

use crate::text::{
    after, ascii_lowered, before, begins_with, chars_of, contains, decimal, has,
    law_decimal_reads_back, lemma_decimal_digits, lemma_first_index, parse_unsigned, replace,
    replaced, same, split_once, starts_with, to_decimal, trim, trim_start, trimmed, unsigned_value,
};

verus! {

// Lower case
/// What `str::to_lowercase` makes of a text.
pub uninterp spec fn unicode_lowercase(s: Seq<char>) -> Seq<char>;

/// A text in lower case: of ASCII text only the letters `A` to `Z` change.
pub open spec fn lowered(s: Seq<char>) -> Seq<char> {
    if is_ascii_chars(s) {
        ascii_lowered(s)
    } else {
        unicode_lowercase(s)
    }
}

/// `str::to_lowercase`: the result depends on the text alone, and of a text in ASCII only the
/// ASCII letters are mapped.
#[verifier::external_body]
fn to_lowercase(s: &str) -> (lower: String)
    ensures
        !is_ascii_chars(s@) ==> lower@ == unicode_lowercase(s@),
        is_ascii_chars(s@) ==> lower@ == ascii_lowered(s@),
{
    s.to_lowercase()
}

// Headers
/// The number of a content length header, or zero where it spells none.
pub open spec fn length_value(line: Seq<char>) -> usize {
    match after(line, ':') {
        Some(rest) => match unsigned_value(trimmed(before(rest, ':')), 10) {
            Some(n) => n,
            None => 0,
        },
        None => 0,
    }
}

/// The header line, whose lower case is `lower`, gives the content length.
pub open spec fn names_length(lower: Seq<char>) -> bool {
    begins_with(lower, "content-length:"@)
}

/// The header line, whose lower case is `lower`, announces a body in chunks.
pub open spec fn names_chunked(lower: Seq<char>) -> bool {
    contains(lower, "transfer-encoding:"@) && contains(lower, "chunked"@)
}

/// The content length that a header line gives, once the line has been put in lower case.
pub fn content_length_in(line: &str, lower: &str) -> (length: Option<usize>)
    ensures
        length == (if names_length(lower@) {
            Some(length_value(line@))
        } else {
            None
        }),
{
    if !starts_with(lower, "content-length:") {
        return None;
    }
    match split_once(line, ':').1 {
        None => Some(0),
        Some(rest) => {
            let value = split_once(rest, ':').0;
            match parse_unsigned(trim(value), 10) {
                Some(n) => Some(n),
                None => Some(0),
            }
        },
    }
}

/// Whether a header line announces a body in chunks, once it has been put in lower case.
pub fn announces_chunks(lower: &str) -> (yes: bool)
    ensures
        yes == names_chunked(lower@),
{
    let chars = chars_of(lower);
    has(&chars, "transfer-encoding:") && has(&chars, "chunked")
}

/// The size that a chunk's first line gives, what follows a `;` left aside; zero where it
/// spells none.
pub open spec fn chunk_size(line: Seq<char>) -> usize {
    match unsigned_value(trimmed(before(line, ';')), 16) {
        Some(n) => n,
        None => 0,
    }
}

/// The size that a chunk's first line gives.
pub fn read_chunk_size(line: &str) -> (size: usize)
    ensures
        size == chunk_size(line@),
{
    match parse_unsigned(trim(split_once(line, ';').0), 16) {
        Some(n) => n,
        None => 0,
    }
}

// Reading a request
/// How far the reading of a request has come.
#[derive(Debug, Clone, Copy, PartialEq, Eq, Structural)]
pub enum Phase {
    RequestLine,
    Headers,
    FixedBody,
    ChunkSize,
    ChunkData,
    ChunkEnd,
    Complete,
    Rejected,
}

/// What the reading of a request needs next.
#[derive(Debug, Clone, Copy, PartialEq, Eq, Structural)]
pub enum Want {
    /// One line.
    Line,
    /// So many bytes.
    Bytes(usize),
    /// Nothing: the request is complete.
    Nothing,
    /// Nothing: there is no request, and the connection is to be dropped.
    Drop,
}

/// A request that is being read. The caller reads what `want` asks for and hands it over.
#[derive(Debug)]
pub struct RequestReader {
    pub phase: Phase,
    pub method: String,
    pub path: String,
    pub content_length: usize,
    pub is_chunked: bool,
    pub chunk: usize,
    pub body: Vec<u8>,
}

/// The state of a request that is being read.
pub struct ReaderState {
    pub phase: Phase,
    pub method: Seq<char>,
    pub path: Seq<char>,
    pub content_length: usize,
    pub is_chunked: bool,
    pub chunk: usize,
    pub body: Seq<u8>,
}

impl View for RequestReader {
    type V = ReaderState;

    open spec fn view(&self) -> ReaderState {
        ReaderState {
            phase: self.phase,
            method: self.method@,
            path: self.path@,
            content_length: self.content_length,
            is_chunked: self.is_chunked,
            chunk: self.chunk,
            body: self.body@,
        }
    }
}

/// What the reading of a request needs in a phase.
pub open spec fn wanted(s: ReaderState) -> Want {
    match s.phase {
        Phase::FixedBody => Want::Bytes(s.content_length),
        Phase::ChunkData => Want::Bytes(s.chunk),
        Phase::Complete => Want::Nothing,
        Phase::Rejected => Want::Drop,
        _ => Want::Line,
    }
}

/// The request line: method and path are the first two words between single spaces.
pub open spec fn request_line(s: ReaderState, line: Option<Seq<char>>) -> ReaderState {
    match line {
        Some(l) => match after(trimmed(l), ' ') {
            Some(rest) => ReaderState {
                phase: Phase::Headers,
                method: before(trimmed(l), ' '),
                path: before(rest, ' '),
                ..s
            },
            None => ReaderState { phase: Phase::Rejected, ..s },
        },
        None => ReaderState { phase: Phase::Rejected, ..s },
    }
}

/// The line ends the headers: it is blank, or there is none.
pub open spec fn ends_headers(line: Option<Seq<char>>) -> bool {
    match line {
        Some(l) => trimmed(l).len() == 0,
        None => true,
    }
}

/// A header line; the last content length counts, and one announcement of chunks is enough.
pub open spec fn header_line(s: ReaderState, line: Option<Seq<char>>) -> ReaderState {
    if ends_headers(line) {
        ReaderState {
            phase: if s.content_length > 0 {
                Phase::FixedBody
            } else if s.is_chunked {
                Phase::ChunkSize
            } else {
                Phase::Complete
            },
            ..s
        }
    } else {
        let l = line->0;
        ReaderState {
            content_length: if names_length(lowered(l)) {
                length_value(l)
            } else {
                s.content_length
            },
            is_chunked: s.is_chunked || names_chunked(lowered(l)),
            ..s
        }
    }
}

/// The first line of a chunk; one without a size ends the body.
pub open spec fn chunk_line(s: ReaderState, line: Option<Seq<char>>) -> ReaderState {
    match line {
        Some(l) => if chunk_size(l) == 0 {
            ReaderState { phase: Phase::Complete, ..s }
        } else {
            ReaderState { phase: Phase::ChunkData, chunk: chunk_size(l), ..s }
        },
        None => ReaderState { phase: Phase::Complete, ..s },
    }
}

/// One line of input, or none where there is no more or it cannot be read.
pub open spec fn line_read(s: ReaderState, line: Option<Seq<char>>) -> ReaderState {
    match s.phase {
        Phase::RequestLine => request_line(s, line),
        Phase::Headers => header_line(s, line),
        Phase::ChunkSize => chunk_line(s, line),
        Phase::ChunkEnd => ReaderState { phase: Phase::ChunkSize, ..s },
        _ => s,
    }
}

/// Bytes of the body.
pub open spec fn bytes_read(s: ReaderState, bytes: Seq<u8>) -> ReaderState {
    match s.phase {
        Phase::FixedBody => ReaderState { phase: Phase::Complete, body: s.body + bytes, ..s },
        Phase::ChunkData => ReaderState { phase: Phase::ChunkEnd, body: s.body + bytes, ..s },
        _ => s,
    }
}

/// The state in which reading begins.
pub open spec fn unread() -> ReaderState {
    ReaderState {
        phase: Phase::RequestLine,
        method: seq![],
        path: seq![],
        content_length: 0,
        is_chunked: false,
        chunk: 0,
        body: seq![],
    }
}

/// A line as the contracts speak of it.
pub open spec fn line_view(line: Option<&str>) -> Option<Seq<char>> {
    match line {
        Some(l) => Some(l@),
        None => None,
    }
}

impl RequestReader {
    /// A request of which nothing has been read.
    pub fn new() -> (reader: RequestReader)
        ensures
            reader@ == unread(),
    {
        RequestReader {
            phase: Phase::RequestLine,
            method: String::new(),
            path: String::new(),
            content_length: 0,
            is_chunked: false,
            chunk: 0,
            body: Vec::new(),
        }
    }

    /// What is needed next.
    pub fn want(&self) -> (want: Want)
        ensures
            want == wanted(self@),
    {
        match self.phase {
            Phase::FixedBody => Want::Bytes(self.content_length),
            Phase::ChunkData => Want::Bytes(self.chunk),
            Phase::Complete => Want::Nothing,
            Phase::Rejected => Want::Drop,
            _ => Want::Line,
        }
    }

    fn on_request_line(&mut self, line: Option<&str>)
        ensures
            final(self)@ == request_line(old(self)@, line_view(line)),
    {
        match line {
            Some(l) => {
                let (method, rest) = split_once(trim(l), ' ');
                match rest {
                    Some(r) => {
                        self.method = method.to_owned();
                        self.path = split_once(r, ' ').0.to_owned();
                        self.phase = Phase::Headers;
                    },
                    None => {
                        self.phase = Phase::Rejected;
                    },
                }
            },
            None => {
                self.phase = Phase::Rejected;
            },
        }
    }

    fn end_headers(&mut self)
        ensures
            final(self)@ == header_line(old(self)@, None),
    {
        self.phase = if self.content_length > 0 {
            Phase::FixedBody
        } else if self.is_chunked {
            Phase::ChunkSize
        } else {
            Phase::Complete
        };
    }

    fn on_header_line(&mut self, line: Option<&str>)
        ensures
            final(self)@ == header_line(old(self)@, line_view(line)),
    {
        match line {
            Some(l) => {
                if trim(l).is_empty() {
                    self.end_headers();
                } else {
                    let lower = to_lowercase(l);
                    match content_length_in(l, lower.as_str()) {
                        Some(n) => {
                            self.content_length = n;
                        },
                        None => {},
                    }
                    if announces_chunks(lower.as_str()) {
                        self.is_chunked = true;
                    }
                }
            },
            None => {
                self.end_headers();
            },
        }
    }

    fn on_chunk_line(&mut self, line: Option<&str>)
        ensures
            final(self)@ == chunk_line(old(self)@, line_view(line)),
    {
        match line {
            Some(l) => {
                let size: usize = read_chunk_size(l);
                if size == 0 {
                    self.phase = Phase::Complete;
                } else {
                    self.chunk = size;
                    self.phase = Phase::ChunkData;
                }
            },
            None => {
                self.phase = Phase::Complete;
            },
        }
    }

    /// Takes one line of input, or none where there is no more or it cannot be read.
    pub fn on_line(&mut self, line: Option<&str>)
        ensures
            final(self)@ == line_read(old(self)@, line_view(line)),
    {
        match self.phase {
            Phase::RequestLine => {
                self.on_request_line(line);
            },
            Phase::Headers => {
                self.on_header_line(line);
            },
            Phase::ChunkSize => {
                self.on_chunk_line(line);
            },
            Phase::ChunkEnd => {
                self.phase = Phase::ChunkSize;
            },
            _ => {},
        }
    }

    /// Takes bytes of the body.
    pub fn on_bytes(&mut self, bytes: &[u8])
        ensures
            final(self)@ == bytes_read(old(self)@, bytes@),
    {
        match self.phase {
            Phase::FixedBody => {
                self.body.extend_from_slice(bytes);
                assert(self.body@ =~= old(self).body@ + bytes@);
                self.phase = Phase::Complete;
            },
            Phase::ChunkData => {
                self.body.extend_from_slice(bytes);
                assert(self.body@ =~= old(self).body@ + bytes@);
                self.phase = Phase::ChunkEnd;
            },
            _ => {},
        }
    }
}

// Routing
/// What a request asks for.
#[derive(Debug, Clone, Copy, PartialEq, Eq, Structural)]
pub enum Route {
    Hello { head: bool },
    Models,
    Messages,
    Cors,
    NotFound,
}

/// What a request with this method and path asks for.
pub open spec fn routed(method: Seq<char>, path: Seq<char>) -> Route {
    if method == "HEAD"@ && path == "/api/hello"@ {
        Route::Hello { head: true }
    } else if method == "GET"@ && path == "/api/hello"@ {
        Route::Hello { head: false }
    } else if method == "GET"@ && (path == "/v1/models"@ || path == "/models"@) {
        Route::Models
    } else if method == "POST"@ && (begins_with(path, "/v1/messages"@) || begins_with(
        path,
        "/messages"@,
    )) {
        Route::Messages
    } else if method == "OPTIONS"@ {
        Route::Cors
    } else {
        Route::NotFound
    }
}

/// What a request with this method and path asks for.
pub fn route(method: &str, path: &str) -> (asked: Route)
    ensures
        asked == routed(method@, path@),
{
    if same(method, "HEAD") && same(path, "/api/hello") {
        Route::Hello { head: true }
    } else if same(method, "GET") && same(path, "/api/hello") {
        Route::Hello { head: false }
    } else if same(method, "GET") && (same(path, "/v1/models") || same(path, "/models")) {
        Route::Models
    } else if same(method, "POST") && (starts_with(path, "/v1/messages") || starts_with(
        path,
        "/messages",
    )) {
        Route::Messages
    } else if same(method, "OPTIONS") {
        Route::Cors
    } else {
        Route::NotFound
    }
}

// Responses
/// The length of a text in bytes, in decimal.
pub open spec fn byte_count(body: Seq<char>) -> Seq<char> {
    decimal(encode_utf8(body).len() as int)
}

/// The header that gives the length of a body.
pub open spec fn length_header(body: Seq<char>) -> Seq<char> {
    "Content-Length: "@ + byte_count(body)
}

/// The head of a response with a JSON body of this text.
pub open spec fn json_head(status: Seq<char>, body: Seq<char>) -> Seq<char> {
    "HTTP/1.1 "@ + status + "\r\nContent-Type: application/json\r\n"@ + length_header(body)
        + "\r\n"@
}

/// A response with a JSON body.
pub open spec fn json_response(status: Seq<char>, body: Seq<char>) -> Seq<char> {
    json_head(status, body) + "\r\n"@ + body
}

fn write_json_head(status: &str, body: &str) -> (head: String)
    ensures
        head@ == json_head(status@, body@),
{
    let length: usize = body.as_bytes().len();
    let mut head = String::new();
    head.append("HTTP/1.1 ");
    head.append(status);
    head.append("\r\nContent-Type: application/json\r\n");
    head.append("Content-Length: ");
    head.append(to_decimal(length as u64).as_str());
    head.append("\r\n");
    assert(head@ =~= json_head(status@, body@));
    head
}

/// A response with a JSON body.
pub fn respond_json(status: &str, body: &str) -> (response: String)
    ensures
        response@ == json_response(status@, body@),
{
    let mut response = write_json_head(status, body);
    response.append("\r\n");
    response.append(body);
    response
}

/// The answer to a question for the allowed origins and methods.
pub const CORS_RESPONSE: &'static str =
    "HTTP/1.1 204 No Content\r\nAccess-Control-Allow-Origin: *\r\nAccess-Control-Allow-Methods: GET, POST, OPTIONS\r\nAccess-Control-Allow-Headers: *\r\nContent-Length: 0\r\n\r\n";

/// The answer to a request for what is not there.
pub const NOT_FOUND_RESPONSE: &'static str =
    "HTTP/1.1 404\r\nContent-Length: 2\r\n\r\n{}";

/// The answer to a question for the allowed origins and methods.
pub fn respond_cors() -> (response: String)
    ensures
        response@ == CORS_RESPONSE@,
{
    CORS_RESPONSE.to_owned()
}

/// The answer to a request for what is not there.
pub fn respond_404() -> (response: String)
    ensures
        response@ == NOT_FOUND_RESPONSE@,
{
    NOT_FOUND_RESPONSE.to_owned()
}

/// The answer to a greeting, from the process `pid`; the answer to a `HEAD` request has the
/// same head and no body.
pub open spec fn hello_response(head: bool, pid: u32) -> Seq<char> {
    json_head("200 OK"@, HELLO@) + "x-request-id: bridge-"@ + decimal(pid as int) + "\r\n\r\n"@ + (
    if head {
        ""@
    } else {
        HELLO@
    })
}

/// The body of the answer to a greeting.
pub const HELLO: &'static str = r#"{"status":"ok"}"#;

/// The answer to a greeting.
pub fn respond_hello(head: bool, pid: u32) -> (response: String)
    ensures
        response@ == hello_response(head, pid),
{
    let mut response = write_json_head("200 OK", HELLO);
    response.append("x-request-id: bridge-");
    response.append(to_decimal(pid as u64).as_str());
    response.append("\r\n\r\n");
    response.append(
        if head {
            ""
        } else {
            HELLO
        },
    );
    response
}

/// How a model is listed: its id, whose parts are joined by hyphens, and the name that is shown
/// for it. In both the parts are given with underscores between them.
pub open spec fn model_entry(id: Seq<char>, name: Seq<char>) -> Seq<char> {
    "        {\"type\":\"model\",\"id\":\""@ + replaced(id, '_', '-')
        + "\",\"display_name\":\""@ + replaced(name, '_', ' ') + "\"}"@
}

/// How a model is listed that also comes in a fast form: the plain form and then the fast one.
pub open spec fn model_pair(id: Seq<char>, name: Seq<char>) -> Seq<char> {
    ",\n"@ + model_entry(id, name) + ",\n"@ + model_entry(id + "_fast"@, name + "_Fast"@)
}

/// The models on offer: the one that is chosen by itself, and then the others.
pub open spec fn models_text() -> Seq<char> {
    "{\"data\":[\n"@ + model_entry("default"@, "Auto"@) + model_pair(
        "claude_sonnet_4_6_high"@,
        "Claude_Sonnet_4.6_High"@,
    ) + model_pair("claude_opus_5_high"@, "Claude_Opus_5_High"@) + model_pair(
        "cursor_grok_4.5_high"@,
        "Cursor_Grok_4.5"@,
    ) + model_pair("composer_2.5"@, "Composer_2.5"@) + "\n    ]}"@
}

fn push_model(out: &mut String, id: &str, name: &str)
    ensures
        final(out)@ == old(out)@ + model_entry(id@, name@),
{
    proof {
        reveal_strlit("-");
        reveal_strlit(" ");
    }
    out.append("        {\"type\":\"model\",\"id\":\"");
    out.append(replace(id, '_', "-").as_str());
    out.append("\",\"display_name\":\"");
    out.append(replace(name, '_', " ").as_str());
    out.append("\"}");
    assert(out@ =~= old(out)@ + model_entry(id@, name@));
}

fn push_model_pair(out: &mut String, id: &str, name: &str)
    ensures
        final(out)@ == old(out)@ + model_pair(id@, name@),
{
    let mut fast_id = id.to_owned();
    fast_id.append("_fast");
    let mut fast_name = name.to_owned();
    fast_name.append("_Fast");
    out.append(",\n");
    push_model(out, id, name);
    out.append(",\n");
    push_model(out, fast_id.as_str(), fast_name.as_str());
    assert(out@ =~= old(out)@ + model_pair(id@, name@));
}

/// The models on offer.
pub fn get_models_json() -> (body: String)
    ensures
        body@ == models_text(),
{
    let mut body = String::new();
    body.append("{\"data\":[\n");
    push_model(&mut body, "default", "Auto");
    push_model_pair(&mut body, "claude_sonnet_4_6_high", "Claude_Sonnet_4.6_High");
    push_model_pair(&mut body, "claude_opus_5_high", "Claude_Opus_5_High");
    push_model_pair(&mut body, "cursor_grok_4.5_high", "Cursor_Grok_4.5");
    push_model_pair(&mut body, "composer_2.5", "Composer_2.5");
    body.append("\n    ]}");
    assert(body@ =~= models_text());
    body
}

/// The answer to a question for the models.
pub fn respond_models() -> (response: String)
    ensures
        response@ == json_response("200 OK"@, models_text()),
{
    respond_json("200 OK", get_models_json().as_str())
}

/// The body that reports an error; double quotes in the message become single ones.
pub open spec fn parse_error_body(message: Seq<char>) -> Seq<char> {
    "{\"error\":\""@ + replaced(message, '"', '\'') + "\"}"@
}

/// The answer to a request whose body cannot be read.
pub fn respond_bad_request(message: &str) -> (response: String)
    ensures
        response@ == json_response("400 Bad Request"@, parse_error_body(message@)),
{
    let mut body = String::new();
    proof {
        reveal_strlit("'");
    }
    body.append("{\"error\":\"");
    body.append(replace(message, '"', "'").as_str());
    body.append("\"}");
    assert(body@ =~= parse_error_body(message@));
    respond_json("400 Bad Request", body.as_str())
}

/// The body that reports that the agent could not be started.
pub open spec fn agent_error_body(message: Seq<char>) -> Seq<char> {
    "{\"error\":\"agent: "@ + message + "\"}"@
}

/// The answer where the agent could not be started.
pub fn respond_agent_error(message: &str) -> (response: String)
    ensures
        response@ == json_response("500"@, agent_error_body(message@)),
{
    let mut body = String::new();
    body.append("{\"error\":\"agent: ");
    body.append(message);
    body.append("\"}");
    assert(body@ =~= agent_error_body(message@));
    respond_json("500", body.as_str())
}

/// The head of a response that streams events.
pub const SSE_HEAD: &'static str =
    "HTTP/1.1 200 OK\r\nContent-Type: text/event-stream\r\nCache-Control: no-cache\r\nConnection: keep-alive\r\nAccess-Control-Allow-Origin: *\r\n\r\n";

/// The head of a response that streams events.
pub fn respond_sse_head() -> (head: String)
    ensures
        head@ == SSE_HEAD@,
{
    SSE_HEAD.to_owned()
}

// Laws
/// The length that a response declares is the length of its body in bytes: the header is a
/// content length header, and reading it gives that number.
pub proof fn law_declared_length(body: Seq<char>)
    requires
        encode_utf8(body).len() <= usize::MAX,
    ensures
        names_length(lowered(length_header(body))),
        length_value(length_header(body)) == encode_utf8(body).len(),
{
    let n = encode_utf8(body).len() as int;
    let line = length_header(body);
    reveal_strlit("Content-Length: ");
    reveal_strlit("content-length:");
    lemma_decimal_digits(n);
    law_decimal_reads_back(n);
    assert forall|i: int| 0 <= i < line.len() implies (line[i] as nat) < 128 by {
        if i >= 16 {
            assert(line[i] == decimal(n)[i - 16]);
        }
    }
    assert(is_ascii_chars(line));
    assert(lowered(line).subrange(0, 15) =~= "content-length:"@);
    lemma_first_index(line, ':', 14);
    let rest = line.skip(15);
    assert(rest =~= seq![' '] + decimal(n));
    assert forall|j: int| 0 <= j < rest.len() implies rest[j] != ':' by {
        if j > 0 {
            assert(rest[j] == decimal(n)[j - 1]);
        }
    }
    lemma_first_index(rest, ':', rest.len() as int);
    assert(before(rest, ':') =~= rest);
    assert(rest.drop_first() =~= decimal(n));
    assert('0' <= decimal(n)[0] <= '9');
    assert('0' <= decimal(n)[decimal(n).len() - 1] <= '9');
    assert(trim_start(decimal(n)) == decimal(n));
    assert(trim_start(rest) == trim_start(rest.drop_first()));
    assert(trimmed(rest) == decimal(n));
}

/// The state after these lines.
pub open spec fn lines_read(s: ReaderState, lines: Seq<Seq<char>>) -> ReaderState
    decreases lines.len(),
{
    if lines.len() == 0 {
        s
    } else {
        line_read(lines_read(s, lines.drop_last()), Some(lines.last()))
    }
}

/// The content length that header lines give: that of the last one that gives any.
pub open spec fn declared_length(headers: Seq<Seq<char>>) -> usize
    decreases headers.len(),
{
    if headers.len() == 0 {
        0
    } else if names_length(lowered(headers.last())) {
        length_value(headers.last())
    } else {
        declared_length(headers.drop_last())
    }
}

/// One of the header lines announces a body in chunks.
pub open spec fn declared_chunked(headers: Seq<Seq<char>>) -> bool {
    exists|i: int| 0 <= i < headers.len() && names_chunked(lowered(#[trigger] headers[i]))
}

/// No header line is blank.
pub open spec fn are_headers(headers: Seq<Seq<char>>) -> bool {
    forall|i: int| 0 <= i < headers.len() ==> trimmed(#[trigger] headers[i]).len() > 0
}

/// Reading header lines gathers the last content length and any announcement of chunks, and
/// leaves method, path and body alone.
pub proof fn law_headers(s: ReaderState, headers: Seq<Seq<char>>)
    requires
        s.phase == Phase::Headers,
        s.content_length == 0,
        !s.is_chunked,
        are_headers(headers),
    ensures
        lines_read(s, headers) == (ReaderState {
            content_length: declared_length(headers),
            is_chunked: declared_chunked(headers),
            ..s
        }),
    decreases headers.len(),
{
    if headers.len() > 0 {
        let earlier = headers.drop_last();
        let last = headers[headers.len() - 1];
        assert forall|i: int| 0 <= i < earlier.len() implies trimmed(
            #[trigger] earlier[i],
        ).len() > 0 by {
            assert(earlier[i] == headers[i]);
        }
        law_headers(s, earlier);
        assert(trimmed(last).len() > 0);
        if declared_chunked(earlier) {
            let i = choose|i: int|
                0 <= i < earlier.len() && names_chunked(lowered(#[trigger] earlier[i]));
            assert(names_chunked(lowered(headers[i])));
        }
        if declared_chunked(headers) && !names_chunked(lowered(last)) {
            let i = choose|i: int|
                0 <= i < headers.len() && names_chunked(lowered(#[trigger] headers[i]));
            assert(names_chunked(lowered(earlier[i])));
        }
    }
}

/// The state after a request line and headers, once a blank line has ended them.
pub open spec fn head_read(
    first: Seq<char>,
    headers: Seq<Seq<char>>,
    blank: Seq<char>,
) -> ReaderState {
    line_read(lines_read(line_read(unread(), Some(first)), headers), Some(blank))
}

/// A request with a content length: exactly so many bytes are asked for, and they are the body.
pub proof fn law_fixed_body(
    first: Seq<char>,
    headers: Seq<Seq<char>>,
    blank: Seq<char>,
    body: Seq<u8>,
)
    requires
        after(trimmed(first), ' ') is Some,
        are_headers(headers),
        trimmed(blank).len() == 0,
        declared_length(headers) > 0,
    ensures
        ({
            let s = head_read(first, headers, blank);
            let t = bytes_read(s, body);
            &&& wanted(s) == Want::Bytes(declared_length(headers))
            &&& wanted(t) == Want::Nothing
            &&& t.method == before(trimmed(first), ' ')
            &&& t.path == before(after(trimmed(first), ' ')->0, ' ')
            &&& t.body == body
        }),
{
    law_headers(line_read(unread(), Some(first)), headers);
    assert(Seq::<u8>::empty() + body =~= body);
}

/// A request that declares neither a length nor chunks is complete with an empty body.
pub proof fn law_no_body(first: Seq<char>, headers: Seq<Seq<char>>, blank: Seq<char>)
    requires
        after(trimmed(first), ' ') is Some,
        are_headers(headers),
        trimmed(blank).len() == 0,
        declared_length(headers) == 0,
        !declared_chunked(headers),
    ensures
        wanted(head_read(first, headers, blank)) == Want::Nothing,
        head_read(first, headers, blank).body == Seq::<u8>::empty(),
{
    law_headers(line_read(unread(), Some(first)), headers);
}

/// One chunk of a body: the line that gives its size, its bytes, and the line that ends it.
pub struct Chunk {
    pub size_line: Seq<char>,
    pub data: Seq<u8>,
    pub end_line: Option<Seq<char>>,
}

/// The state after these chunks.
pub open spec fn chunks_read(s: ReaderState, chunks: Seq<Chunk>) -> ReaderState
    decreases chunks.len(),
{
    if chunks.len() == 0 {
        s
    } else {
        let before = chunks_read(s, chunks.drop_last());
        let chunk = chunks.last();
        line_read(bytes_read(line_read(before, Some(chunk.size_line)), chunk.data), chunk.end_line)
    }
}

/// The bytes of these chunks, one after the other.
pub open spec fn chunks_data(chunks: Seq<Chunk>) -> Seq<u8>
    decreases chunks.len(),
{
    if chunks.len() == 0 {
        seq![]
    } else {
        chunks_data(chunks.drop_last()) + chunks.last().data
    }
}

proof fn lemma_chunks(s: ReaderState, chunks: Seq<Chunk>)
    requires
        s.phase == Phase::ChunkSize,
        forall|i: int| 0 <= i < chunks.len() ==> chunk_size((#[trigger] chunks[i]).size_line) > 0,
    ensures
        chunks_read(s, chunks).phase == Phase::ChunkSize,
        chunks_read(s, chunks).body == s.body + chunks_data(chunks),
        chunks_read(s, chunks).method == s.method,
        chunks_read(s, chunks).path == s.path,
    decreases chunks.len(),
{
    if chunks.len() == 0 {
        assert(s.body + chunks_data(chunks) =~= s.body);
    } else {
        let earlier = chunks.drop_last();
        assert forall|i: int| 0 <= i < earlier.len() implies chunk_size(
            (#[trigger] earlier[i]).size_line,
        ) > 0 by {
            assert(earlier[i] == chunks[i]);
        }
        lemma_chunks(s, earlier);
        assert(chunk_size(chunks[chunks.len() - 1].size_line) > 0);
        assert(chunks_read(s, chunks).body =~= s.body + chunks_data(chunks));
    }
}

/// A request in chunks: of each chunk exactly the bytes that its line announces are asked for,
/// a line without a size ends the body, and the body is the chunks' bytes in order.
pub proof fn law_chunked_body(
    first: Seq<char>,
    headers: Seq<Seq<char>>,
    blank: Seq<char>,
    chunks: Seq<Chunk>,
    last: Option<Seq<char>>,
)
    requires
        after(trimmed(first), ' ') is Some,
        are_headers(headers),
        trimmed(blank).len() == 0,
        declared_length(headers) == 0,
        declared_chunked(headers),
        forall|i: int| 0 <= i < chunks.len() ==> chunk_size((#[trigger] chunks[i]).size_line) > 0,
        last matches Some(l) ==> chunk_size(l) == 0,
    ensures
        ({
            let s = head_read(first, headers, blank);
            let t = line_read(chunks_read(s, chunks), last);
            &&& forall|i: int|
                0 <= i < chunks.len() ==> wanted(
                    line_read(
                        chunks_read(s, chunks.take(i)),
                        Some((#[trigger] chunks[i]).size_line),
                    ),
                ) == Want::Bytes(chunk_size(chunks[i].size_line))
            &&& wanted(t) == Want::Nothing
            &&& t.body == chunks_data(chunks)
        }),
{
    let s = head_read(first, headers, blank);
    law_headers(line_read(unread(), Some(first)), headers);
    lemma_chunks(s, chunks);
    assert(s.body + chunks_data(chunks) =~= chunks_data(chunks));
    assert forall|i: int| 0 <= i < chunks.len() implies wanted(
        line_read(chunks_read(s, chunks.take(i)), Some((#[trigger] chunks[i]).size_line)),
    ) == Want::Bytes(chunk_size(chunks[i].size_line)) by {
        let part = chunks.take(i);
        assert forall|j: int| 0 <= j < part.len() implies chunk_size(
            (#[trigger] part[j]).size_line,
        ) > 0 by {
            assert(part[j] == chunks[j]);
        }
        lemma_chunks(s, part);
    }
}

} // verus!
