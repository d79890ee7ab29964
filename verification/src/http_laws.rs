//! What holds of every request and every response: what a request line, a header and a chunk line
//! say, what a path asks for, and what a response consists of.

use vstd::prelude::*;
use vstd::string::*;
use vstd::utf8::{encode_utf8, is_ascii_chars};

use crate::http::{
    agent_error_body, bytes_read, chunk_size, hello_response, json_response, length_value,
    line_read, lowered, names_chunked, names_length, parse_error_body, routed, unicode_lowercase,
    wanted, Phase, ReaderState, Route, Want,
};
use crate::text::{
    ascii_lowered, begins_with, contains, decimal, law_decimal_reads_back, lemma_decimal_digits,
    replaced, trimmed, unsigned_value, white_space,
};
use crate::text_laws::{
    blank, law_beginning, law_splitting, law_trimming, tight,
};

verus! {

// Routes
/// A `POST` request asks for messages at either of the two paths, whatever follows them in the
/// path, nothing included.
pub proof fn law_messages_are_posted(rest: Seq<char>)
    ensures
        routed("POST"@, "/v1/messages"@ + rest) == Route::Messages,
        routed("POST"@, "/messages"@ + rest) == Route::Messages,
        routed("POST"@, "/v1/messages"@) == Route::Messages,
        routed("POST"@, "/messages"@) == Route::Messages,
{
    lemma_methods();
    law_beginning("/v1/messages"@ + rest, "/v1/messages"@);
    law_beginning("/messages"@ + rest, "/messages"@);
    law_beginning("/v1/messages"@, "/v1/messages"@);
    law_beginning("/messages"@, "/messages"@);
    assert("/v1/messages"@ =~= "/v1/messages"@ + Seq::<char>::empty());
    assert("/messages"@ =~= "/messages"@ + Seq::<char>::empty());
}

proof fn lemma_methods()
    ensures
        "POST"@ != "HEAD"@,
        "POST"@ != "GET"@,
        "POST"@ != "OPTIONS"@,
        "HEAD"@ != "GET"@,
        "HEAD"@ != "OPTIONS"@,
        "GET"@ != "OPTIONS"@,
{
    reveal_strlit("POST");
    reveal_strlit("HEAD");
    reveal_strlit("GET");
    reveal_strlit("OPTIONS");
    assert("POST"@[0] != "HEAD"@[0]);
    assert("GET"@.len() == 3 && "OPTIONS"@.len() == 7 && "POST"@.len() == 4 && "HEAD"@.len() == 4);
}

/// The greeting and the models are asked for at their paths and nowhere else, a request with
/// `OPTIONS` asks what is allowed whatever its path, and every other request asks for what is not
/// there.
pub proof fn law_routes(method: Seq<char>, path: Seq<char>)
    ensures
        routed(method, path) == (Route::Hello { head: true }) <==> method == "HEAD"@ && path
            == "/api/hello"@,
        routed(method, path) == (Route::Hello { head: false }) <==> method == "GET"@ && path
            == "/api/hello"@,
        routed(method, path) == Route::Models <==> method == "GET"@ && (path == "/v1/models"@
            || path == "/models"@),
        routed(method, path) == Route::Messages ==> method == "POST"@ && exists|rest: Seq<char>|
            path == #[trigger] ("/v1/messages"@ + rest) || path == "/messages"@ + rest,
        routed(method, path) == Route::Cors <==> method == "OPTIONS"@,
        method != "HEAD"@ && method != "GET"@ && method != "POST"@ && method != "OPTIONS"@
            ==> routed(method, path) == Route::NotFound,
{
    lemma_methods();
    reveal_strlit("/api/hello");
    reveal_strlit("/v1/models");
    reveal_strlit("/models");
    assert("/api/hello"@[1] != "/v1/models"@[1]);
    assert("/models"@.len() != "/api/hello"@.len());
    if routed(method, path) == Route::Messages {
        law_beginning(path, "/v1/messages"@);
        law_beginning(path, "/messages"@);
        if begins_with(path, "/v1/messages"@) {
            let rest = choose|b: Seq<char>| path == #[trigger] ("/v1/messages"@ + b);
            assert(path == "/v1/messages"@ + rest);
        } else {
            let rest = choose|b: Seq<char>| path == #[trigger] ("/messages"@ + b);
            let other = "/v1/messages"@ + rest;
            assert(path == "/messages"@ + rest);
        }
    }
}

// The request line
/// The first two words of the request line, between single spaces, are the method and the path,
/// whole; the rest of the line does not matter.
pub proof fn law_request_line(
    s: ReaderState,
    line: Seq<char>,
    method: Seq<char>,
    path: Seq<char>,
    rest: Seq<char>,
)
    requires
        s.phase == Phase::RequestLine,
        !method.contains(' '),
        !path.contains(' '),
        trimmed(line) == method.push(' ') + path || trimmed(line) == method.push(' ') + (path.push(
            ' ',
        ) + rest),
    ensures
        line_read(s, Some(line)) == (ReaderState { phase: Phase::Headers, method, path, ..s }),
{
    if trimmed(line) == method.push(' ') + path {
        law_splitting(method, ' ', path);
        law_splitting(path, ' ', rest);
    } else {
        law_splitting(method, ' ', path.push(' ') + rest);
        law_splitting(path, ' ', rest);
    }
}

/// A first line with fewer than two words, or none at all, is no request.
pub proof fn law_no_request(s: ReaderState, line: Seq<char>)
    requires
        s.phase == Phase::RequestLine,
        !trimmed(line).contains(' '),
    ensures
        wanted(line_read(s, Some(line))) == Want::Drop,
        wanted(line_read(s, None)) == Want::Drop,
{
    law_splitting(trimmed(line), ' ', seq![]);
}

// Headers
proof fn lemma_not_blank(line: Seq<char>, i: int)
    requires
        0 <= i < line.len(),
        !white_space(line[i]),
    ensures
        trimmed(line).len() > 0,
{
    crate::text_laws::law_trimmed_is_inside(line);
    let (l, r) = choose|l: Seq<char>, r: Seq<char>|
        #![trigger blank(l), blank(r)]
        blank(l) && blank(r) && line == l + trimmed(line) + r;
    if trimmed(line).len() == 0 {
        if i < l.len() {
            assert(line[i] == l[i]);
        } else {
            assert(line[i] == r[i - l.len()]);
        }
    }
}

/// A content length header, in whatever case its name is written, gives the number that stands
/// after the colon, with or without whitespace around it, and touches nothing else.
pub proof fn law_length_header(
    s: ReaderState,
    name: Seq<char>,
    left: Seq<char>,
    n: usize,
    right: Seq<char>,
)
    requires
        s.phase == Phase::Headers,
        is_ascii_chars(name + left + right),
        ascii_lowered(name) == "content-length"@,
        blank(left),
        blank(right),
    ensures
        line_read(s, Some(name.push(':') + (left + decimal(n as int) + right))) == (ReaderState {
            content_length: n,
            ..s
        }),
{
    let value = left + decimal(n as int) + right;
    let line = name.push(':') + value;
    let digits = decimal(n as int);
    reveal_strlit("content-length");
    reveal_strlit("content-length:");
    reveal_strlit("transfer-encoding:");
    lemma_decimal_digits(n as int);
    law_decimal_reads_back(n as int);
    assert(name.len() == 14) by {
        assert(ascii_lowered(name).len() == name.len());
    }
    assert forall|i: int| 0 <= i < name.len() implies name[i] != ':' by {
        assert(ascii_lowered(name)[i] == "content-length"@[i]);
    }
    assert(!name.contains(':'));
    law_splitting(name, ':', value);
    assert forall|i: int| 0 <= i < value.len() implies value[i] != ':' && '\0'
        <= #[trigger] value[i] <= '\u{7f}' by {
        let joined = name + left + right;
        if i < left.len() {
            assert(value[i] == left[i]);
            assert(white_space(left[i]));
            assert(joined[name.len() + i] == left[i]);
        } else if i < left.len() + digits.len() {
            assert(value[i] == digits[i - left.len()]);
        } else {
            let j = i - left.len() - digits.len();
            assert(value[i] == right[j]);
            assert(white_space(right[j]));
            assert(joined[name.len() + left.len() + j] == right[j]);
        }
    }
    assert(!value.contains(':'));
    law_splitting(value, ':', seq![]);
    law_trimming(left, digits, right);
    assert forall|i: int| 0 <= i < line.len() implies '\0' <= #[trigger] line[i] <= '\u{7f}' by {
        let joined = name + left + right;
        if i < name.len() {
            assert(line[i] == name[i]);
            assert(joined[i] == name[i]);
        } else if i > name.len() {
            assert(line[i] == value[i - name.len() - 1]);
        }
    }
    assert(is_ascii_chars(line));
    assert(ascii_lowered(line).subrange(0, 15) =~= "content-length:"@) by {
        assert forall|i: int| 0 <= i < 14 implies ascii_lowered(line)[i]
            == "content-length:"@[i] by {
            assert(ascii_lowered(name)[i] == "content-length"@[i]);
        }
    }
    assert(names_length(lowered(line)));
    assert(length_value(line) == n);
    // The only colon is that of the name, which is no other header's.
    if names_chunked(lowered(line)) {
        let low = ascii_lowered(line);
        let i = choose|i: int| crate::text::occurs_at(low, "transfer-encoding:"@, i);
        let hit = low.subrange(i, i + 18);
        assert(hit[17] == ':');
        assert(low[i + 17] == ':');
        if i + 17 != 14 {
            if i + 17 < 14 {
                assert(line[i + 17] == name[i + 17]);
            } else {
                assert(line[i + 17] == value[i + 17 - 15]);
            }
        }
    }
    assert(!white_space(line[14]));
    lemma_not_blank(line, 14);
}

/// A header line in ASCII says that the body comes in chunks exactly where it holds both words, in
/// whatever case, and gives a length only where its name says so.
pub proof fn law_other_headers(s: ReaderState, line: Seq<char>)
    requires
        s.phase == Phase::Headers,
        is_ascii_chars(line),
        trimmed(line).len() > 0,
        !begins_with(ascii_lowered(line), "content-length:"@),
    ensures
        line_read(s, Some(line)) == (ReaderState {
            is_chunked: s.is_chunked || (contains(ascii_lowered(line), "transfer-encoding:"@)
                && contains(ascii_lowered(line), "chunked"@)),
            ..s
        }),
{
}

/// A header line with other characters than ASCII is read in the same way, by what
/// `str::to_lowercase` makes of it.
pub proof fn law_headers_beyond_ascii(s: ReaderState, line: Seq<char>)
    requires
        s.phase == Phase::Headers,
        !is_ascii_chars(line),
        trimmed(line).len() > 0,
    ensures
        ({
            let low = unicode_lowercase(line);
            let after = line_read(s, Some(line));
            &&& after.is_chunked == (s.is_chunked || (contains(low, "transfer-encoding:"@)
                && contains(low, "chunked"@)))
            &&& !begins_with(low, "content-length:"@) ==> after.content_length == s.content_length
            &&& begins_with(low, "content-length:"@) ==> after.content_length == length_value(line)
            &&& after.phase == s.phase && after.method == s.method && after.path == s.path
            &&& after.body == s.body
        }),
{
}

/// The number of a length header is what stands between the first two colons; where that spells
/// no number, or there is no colon, the length is zero.
pub proof fn law_number_of_a_length(name: Seq<char>, value: Seq<char>, rest: Seq<char>)
    requires
        !name.contains(':'),
        !value.contains(':'),
    ensures
        length_value(name) == 0,
        unsigned_value(trimmed(value), 10) matches Some(n) ==> length_value(name.push(':') + value)
            == n,
        unsigned_value(trimmed(value), 10) is None ==> length_value(name.push(':') + value) == 0,
        length_value(name.push(':') + (value.push(':') + rest)) == length_value(
            name.push(':') + value,
        ),
{
    law_splitting(name, ':', value);
    law_splitting(name, ':', value.push(':') + rest);
    law_splitting(value, ':', rest);
}

/// A blank line, or the end of the input, ends the headers: a length asks for that many bytes,
/// chunks ask for a line, and a request with neither is complete.
pub proof fn law_end_of_headers(s: ReaderState, line: Option<Seq<char>>)
    requires
        s.phase == Phase::Headers,
        line matches Some(l) ==> trimmed(l).len() == 0,
    ensures
        s.content_length > 0 ==> wanted(line_read(s, line)) == Want::Bytes(s.content_length),
        s.content_length == 0 && s.is_chunked ==> wanted(line_read(s, line)) == Want::Line
            && line_read(s, line).phase == Phase::ChunkSize,
        s.content_length == 0 && !s.is_chunked ==> wanted(line_read(s, line)) == Want::Nothing,
        line_read(s, line).method == s.method,
        line_read(s, line).path == s.path,
        line_read(s, line).body == s.body,
{
}

// The body
/// The bytes that are read are added to the body, all of them and in order; those of a body with
/// a length complete it, and those of a chunk are followed by the line that ends the chunk.
pub proof fn law_body_bytes(s: ReaderState, bytes: Seq<u8>)
    ensures
        s.phase == Phase::FixedBody ==> wanted(s) == Want::Bytes(s.content_length) && bytes_read(
            s,
            bytes,
        ) == (ReaderState { phase: Phase::Complete, body: s.body + bytes, ..s }),
        s.phase == Phase::ChunkData ==> wanted(s) == Want::Bytes(s.chunk) && bytes_read(s, bytes)
            == (ReaderState { phase: Phase::ChunkEnd, body: s.body + bytes, ..s }),
        s.phase == Phase::Complete ==> wanted(s) == Want::Nothing && bytes_read(s, bytes) == s,
        s.phase == Phase::Rejected ==> wanted(s) == Want::Drop && bytes_read(s, bytes) == s,
{
}

/// After the bytes of a chunk one line is passed over, whatever it holds, and the next chunk
/// begins.
pub proof fn law_line_after_a_chunk(s: ReaderState, line: Option<Seq<char>>)
    requires
        s.phase == Phase::ChunkEnd,
    ensures
        wanted(s) == Want::Line,
        line_read(s, line) == (ReaderState { phase: Phase::ChunkSize, ..s }),
{
}

/// The size of a chunk is the hexadecimal number on its first line; whitespace around it, and
/// what follows a semicolon, do not matter.
pub proof fn law_chunk_line(
    s: ReaderState,
    left: Seq<char>,
    digits: Seq<char>,
    right: Seq<char>,
    extension: Seq<char>,
    n: usize,
)
    requires
        s.phase == Phase::ChunkSize,
        blank(left),
        blank(right),
        tight(digits),
        !digits.contains(';'),
        unsigned_value(digits, 16) == Some(n),
    ensures
        ({
            let number = left + digits + right;
            &&& chunk_size(number) == n
            &&& chunk_size(number.push(';') + extension) == n
            &&& n > 0 ==> wanted(line_read(s, Some(number))) == Want::Bytes(n)
            &&& n > 0 ==> line_read(s, Some(number)).body == s.body
            &&& n == 0 ==> wanted(line_read(s, Some(number))) == Want::Nothing
            &&& wanted(line_read(s, None)) == Want::Nothing
        }),
{
    let number = left + digits + right;
    assert forall|i: int| 0 <= i < number.len() implies number[i] != ';' by {
        if i < left.len() {
            assert(number[i] == left[i]);
            assert(white_space(left[i]));
        } else if i < left.len() + digits.len() {
            assert(number[i] == digits[i - left.len()]);
            assert(digits.contains(number[i]));
        } else {
            let j = i - left.len() - digits.len();
            assert(number[i] == right[j]);
            assert(white_space(right[j]));
        }
    }
    assert(!number.contains(';'));
    law_splitting(number, ';', extension);
    law_trimming(left, digits, right);
}

/// A chunk line that spells no number ends the body.
pub proof fn law_no_chunk(s: ReaderState, line: Seq<char>)
    requires
        s.phase == Phase::ChunkSize,
        !line.contains(';'),
        unsigned_value(trimmed(line), 16) is None,
    ensures
        line_read(s, Some(line)) == (ReaderState { phase: Phase::Complete, ..s }),
{
    law_splitting(line, ';', seq![]);
}

// Responses
/// A response with a JSON body says its status and the length of the body in bytes, and then
/// gives the body, whole.
pub proof fn law_json_response(status: Seq<char>, body: Seq<char>)
    ensures
        json_response(status, body) == "HTTP/1.1 "@ + status
            + "\r\nContent-Type: application/json\r\nContent-Length: "@ + decimal(
            encode_utf8(body).len() as int,
        ) + "\r\n\r\n"@ + body,
{
    reveal_strlit("\r\nContent-Type: application/json\r\nContent-Length: ");
    reveal_strlit("\r\nContent-Type: application/json\r\n");
    reveal_strlit("Content-Length: ");
    reveal_strlit("\r\n");
    reveal_strlit("\r\n\r\n");
    assert(json_response(status, body) =~= "HTTP/1.1 "@ + status
        + "\r\nContent-Type: application/json\r\nContent-Length: "@ + decimal(
        encode_utf8(body).len() as int,
    ) + "\r\n\r\n"@ + body);
}

/// The answer to a greeting names the process; asked for without a body it is the same up to
/// there.
pub proof fn law_hello(pid: u32)
    ensures
        hello_response(true, pid)
            == "HTTP/1.1 200 OK\r\nContent-Type: application/json\r\nContent-Length: 15\r\nx-request-id: bridge-"@
            + decimal(pid as int) + "\r\n\r\n"@,
        hello_response(false, pid) == hello_response(true, pid) + "{\"status\":\"ok\"}"@,
{
    reveal_strlit("");
    reveal_strlit("HTTP/1.1 ");
    reveal_strlit("200 OK");
    reveal_strlit("\r\nContent-Type: application/json\r\n");
    reveal_strlit("Content-Length: ");
    reveal_strlit("\r\n");
    reveal_strlit("x-request-id: bridge-");
    reveal_strlit(
        "HTTP/1.1 200 OK\r\nContent-Type: application/json\r\nContent-Length: 15\r\nx-request-id: bridge-",
    );
    let body = crate::http::HELLO@;
    assert(body == "{\"status\":\"ok\"}"@);
    reveal_strlit("{\"status\":\"ok\"}");
    assert(is_ascii_chars(body));
    vstd::utf8::is_ascii_chars_encode_utf8(body);
    assert(encode_utf8(body).len() == 15);
    assert(decimal(15) =~= seq!['1', '5']) by {
        assert(decimal(1) =~= seq!['1']);
        assert(15int / 10 == 1 && 15int % 10 == 5);
    }
    assert(hello_response(true, pid)
        =~= "HTTP/1.1 200 OK\r\nContent-Type: application/json\r\nContent-Length: 15\r\nx-request-id: bridge-"@
        + decimal(pid as int) + "\r\n\r\n"@);
    assert(hello_response(false, pid) =~= hello_response(true, pid) + body);
}

/// An error report carries the whole message: one about the request with single quotes in place
/// of double ones, one about the agent as it is.
pub proof fn law_error_reports(message: Seq<char>)
    ensures
        parse_error_body(message) == "{\"error\":\""@ + replaced(message, '"', '\'') + "\"}"@,
        !message.contains('"') ==> parse_error_body(message) == "{\"error\":\""@ + message
            + "\"}"@,
        agent_error_body(message) == "{\"error\":\"agent: "@ + message + "\"}"@,
{
    if !message.contains('"') {
        assert forall|i: int| 0 <= i < message.len() implies message[i] != '"' by {
            assert(message.contains(message[i]));
        }
        assert(replaced(message, '"', '\'') =~= message);
    }
}

} // verus!
