//! HTTP/1.1 responses and their parts.
//!
//! A response is read line by line. Lines end at `\n`; a `\r` directly before
//! the `\n`, or at the very end of a last line that no `\n` ends, belongs to
//! the line ending and not to the line. A text that ends in `\n` has no
//! further, empty line after it.
//!
//! The first line is the status line: a version, a space, a status code and,
//! after one more space, a reason phrase. The lines after it are headers, up
//! to the first blank line. That line is the separator, and all that follows
//! it is the body, taken as it stands.
//!
//! Faults are reported in the order in which reading meets them: the status
//! line first, then the lines of the header block one by one, and the lack of
//! a separator only when every line before the end was a header.

use vstd::prelude::*;
use vstd::string::*;
use vstd::utf8::*;
use crate::error::Refusal;
use crate::error::ValidationError;
use crate::text::after_first;
use crate::text::before_first;
use crate::text::decimal;
use crate::text::first_in;
use crate::text::first_occurrence;
use crate::text::is_numeral;
use crate::text::chars_of;
use crate::text::find_char;
use crate::text::find_pattern;
use crate::text::lemma_first_contains;
use crate::text::lemma_first_in;
use crate::text::lemma_first_in_piece;
use crate::text::lemma_first_occurrence;
use crate::text::lemma_first_occurrence_piece;
use crate::text::read_decimal;
use crate::text::slice_of;

verus! {

/// Where the line that starts at `start` ends: at the next `\n`, or at the
/// end of the text.
pub open spec fn line_end(s: Seq<char>, start: int) -> int {
    first_in(s, '\n', start, s.len() as int)
}

/// Where line number `k` starts, counting from 0.
pub open spec fn line_start(s: Seq<char>, k: nat) -> int
    decreases k,
{
    if k == 0 {
        0
    } else {
        line_end(s, line_start(s, (k - 1) as nat)) + 1
    }
}

/// The text has a line number `k`: the line starts before the text ends.
pub open spec fn has_line(s: Seq<char>, k: nat) -> bool {
    line_start(s, k) < s.len()
}

/// `l` without the `\r` at its end, if it ends in one.
pub open spec fn without_cr(l: Seq<char>) -> Seq<char> {
    if l.len() > 0 && l.last() == '\r' {
        l.drop_last()
    } else {
        l
    }
}

/// Line number `k` of the text, without its line ending.
pub open spec fn line(s: Seq<char>, k: nat) -> Seq<char> {
    without_cr(s.subrange(line_start(s, k), line_end(s, line_start(s, k))))
}

/// The version of a status line: what stands before its first space.
pub open spec fn version_of(status: Seq<char>) -> Seq<char> {
    before_first(status, ' ')
}

/// The status code as written: what stands between the first space of the
/// status line and the second.
pub open spec fn status_token_of(status: Seq<char>) -> Seq<char> {
    before_first(after_first(status, ' '), ' ')
}

/// The reason phrase: what stands after the second space of the status line.
pub open spec fn reason_of(status: Seq<char>) -> Seq<char> {
    after_first(after_first(status, ' '), ' ')
}

/// A status line is well formed when it has its two tokens: neither the
/// version nor the status code is empty.
pub open spec fn status_line_formed(status: Seq<char>) -> bool {
    &&& version_of(status).len() > 0
    &&& status_token_of(status).len() > 0
}

/// A status code is valid when it is a decimal numeral from 100 to 599.
pub open spec fn status_code_valid(token: Seq<char>) -> bool {
    &&& is_numeral(token)
    &&& 100 <= decimal(token) <= 599
}

/// The characters `: `, which part the name of a header from its value.
pub open spec fn header_separator() -> Seq<char> {
    seq![':', ' ']
}

/// A line of the header block is a header when it is not blank and holds a `:`.
pub open spec fn is_header_line(l: Seq<char>) -> bool {
    &&& l.len() > 0
    &&& l.contains(':')
}

/// Name and value of a header.
pub struct HeaderParts {
    pub name: Seq<char>,
    pub value: Seq<char>,
}

/// The header that the line `l` writes. The line is cut at its first `: `;
/// a line that holds no `: ` is cut at its first `:`.
pub open spec fn header_of(l: Seq<char>) -> HeaderParts {
    let at = first_occurrence(l, header_separator(), 0, l.len() as int);
    if at < l.len() {
        HeaderParts { name: l.take(at), value: l.skip(at + 2) }
    } else {
        HeaderParts { name: before_first(l, ':'), value: after_first(l, ':') }
    }
}

/// The number of the line at which the header block that starts at line `k`
/// ends: the first line from `k` on that is missing or is no header.
pub open spec fn header_stop(s: Seq<char>, k: nat) -> nat
    decreases s.len() + 1 - line_start(s, k),
{
    if has_line(s, k) && is_header_line(line(s, k)) {
        proof {
            lemma_first_in(s, '\n', line_start(s, k), s.len() as int);
            assert(((k + 1) - 1) as nat == k);
            assert(line_start(s, k + 1) == line_end(s, line_start(s, k)) + 1);
        }
        header_stop(s, k + 1)
    } else {
        k
    }
}

/// The headers of a response whose separator is line number `stop`: one for
/// each line between the status line and the separator, in their order.
pub open spec fn headers_of(s: Seq<char>, stop: nat) -> Seq<HeaderParts> {
    Seq::new((stop - 1) as nat, |i: int| header_of(line(s, (i + 1) as nat)))
}

/// The body of a response whose separator is line number `stop`: all that
/// follows that line.
pub open spec fn body_of(s: Seq<char>, stop: nat) -> Seq<char> {
    if has_line(s, stop + 1) {
        s.skip(line_start(s, stop + 1))
    } else {
        Seq::empty()
    }
}

/// The parts of a response.
pub struct ResponseParts {
    pub version: Seq<char>,
    pub status_code: nat,
    pub reason: Seq<char>,
    pub headers: Seq<HeaderParts>,
    pub body: Seq<char>,
}

/// What reading the text `s` as a response gives: its parts, or the first
/// fault met.
pub open spec fn response_of(s: Seq<char>) -> Result<ResponseParts, Refusal> {
    let status = line(s, 0);
    let token = status_token_of(status);
    let stop = header_stop(s, 1);
    if !status_line_formed(status) {
        Err(Refusal::MalformedStatusLine { line: status })
    } else if !status_code_valid(token) {
        Err(Refusal::InvalidStatusCode { token })
    } else if !has_line(s, stop) {
        Err(Refusal::MissingBodySeparator)
    } else if line(s, stop).len() > 0 {
        Err(Refusal::MalformedHeader { line: line(s, stop) })
    } else {
        Ok(
            ResponseParts {
                version: version_of(status),
                status_code: decimal(token),
                reason: reason_of(status),
                headers: headers_of(s, stop),
                body: body_of(s, stop),
            },
        )
    }
}

/// Line number `k` is the separator: the first blank line after the status
/// line.
pub open spec fn is_separator(s: Seq<char>, k: nat) -> bool {
    &&& k >= 1
    &&& has_line(s, k)
    &&& line(s, k).len() == 0
    &&& forall|j: nat| 1 <= j < k ==> #[trigger] has_line(s, j) && line(s, j).len() > 0
}

/// From line `k` up to the line at which the header block ends every line is
/// a header, and that line is none.
pub proof fn lemma_header_stop(s: Seq<char>, k: nat)
    ensures
        k <= header_stop(s, k),
        forall|j: nat|
            k <= j < header_stop(s, k) ==> #[trigger] has_line(s, j) && is_header_line(line(s, j)),
        !has_line(s, header_stop(s, k)) || !is_header_line(line(s, header_stop(s, k))),
    decreases s.len() + 1 - line_start(s, k),
{
    if has_line(s, k) && is_header_line(line(s, k)) {
        lemma_first_in(s, '\n', line_start(s, k), s.len() as int);
        assert(((k + 1) - 1) as nat == k);
        assert(line_start(s, k + 1) == line_end(s, line_start(s, k)) + 1);
        lemma_header_stop(s, k + 1);
        assert(header_stop(s, k) == header_stop(s, k + 1));
        assert forall|j: nat| k <= j < header_stop(s, k) implies #[trigger] has_line(s, j)
            && is_header_line(line(s, j)) by {
            if j > k {
                assert(k + 1 <= j < header_stop(s, k + 1));
            }
        }
    }
}

/// A text that is read as a response has a separator: the line at which its
/// header block ends.
pub proof fn lemma_response_has_separator(s: Seq<char>)
    requires
        response_of(s) is Ok,
    ensures
        is_separator(s, header_stop(s, 1)),
{
    lemma_header_stop(s, 1);
}

/// Headers follow lines: a response that was read has as many headers as
/// there are lines between its status line and its separator, and each
/// header is the one that the line in its place writes, so that the headers
/// stand in the order of their lines, repeated names among them.
pub proof fn lemma_headers_follow_lines(s: Seq<char>, k: nat)
    requires
        response_of(s) is Ok,
        is_separator(s, k),
    ensures
        response_of(s)->Ok_0.headers.len() == k - 1,
        forall|i: int|
            0 <= i < k - 1 ==> #[trigger] response_of(s)->Ok_0.headers[i] == header_of(
                line(s, (i + 1) as nat),
            ),
{
    lemma_header_stop(s, 1);
    let stop = header_stop(s, 1);
    if k < stop {
        assert(has_line(s, k) && is_header_line(line(s, k)));
    }
    if stop < k {
        assert(has_line(s, stop) && line(s, stop).len() > 0);
    }
}

/// A text with a well-formed status line and a valid status code, in which
/// every line after the status line holds a `:`, and so none is blank, lacks
/// its separator.
pub proof fn lemma_no_blank_line_no_separator(s: Seq<char>)
    requires
        status_line_formed(line(s, 0)),
        status_code_valid(status_token_of(line(s, 0))),
        forall|k: nat| k >= 1 && #[trigger] has_line(s, k) ==> line(s, k).contains(':'),
    ensures
        response_of(s) == Err::<ResponseParts, Refusal>(Refusal::MissingBodySeparator),
{
    lemma_header_stop(s, 1);
    let stop = header_stop(s, 1);
    if has_line(s, stop) {
        assert(line(s, stop).contains(':'));
        let at = choose|at: int| 0 <= at < line(s, stop).len() && line(s, stop)[at] == ':';
        assert(line(s, stop).len() > 0);
    }
}

/// A text without a blank line after its status line is not read as a
/// response.
pub proof fn lemma_no_blank_line_no_response(s: Seq<char>)
    requires
        forall|k: nat| k >= 1 && #[trigger] has_line(s, k) ==> line(s, k).len() > 0,
    ensures
        response_of(s) is Err,
{
}

/// A status line of one token, with no space in it, is malformed, whatever
/// follows it.
pub proof fn lemma_one_token_status_line(s: Seq<char>)
    requires
        !line(s, 0).contains(' '),
    ensures
        response_of(s) == Err::<ResponseParts, Refusal>(
            Refusal::MalformedStatusLine { line: line(s, 0) },
        ),
{
    lemma_first_contains(line(s, 0), ' ');
    assert(before_first(Seq::<char>::empty(), ' ').len() == 0);
}

/// What reading the bytes `bytes` as a response gives: bytes that are not
/// UTF-8 are refused, others are read as the text that they encode.
pub open spec fn response_of_bytes(bytes: Seq<u8>) -> Result<ResponseParts, Refusal> {
    if valid_utf8(bytes) {
        response_of(decode_utf8(bytes))
    } else {
        Err(Refusal::InvalidEncoding)
    }
}

/// One header of a response: a name and a value, as they were written.
#[derive(Debug, PartialEq, Eq)]
pub struct Header {
    name: String,
    value: String,
}

impl View for Header {
    type V = HeaderParts;

    closed spec fn view(&self) -> HeaderParts {
        HeaderParts { name: self.name@, value: self.value@ }
    }
}

impl Clone for Header {
    fn clone(&self) -> (copy: Header)
        ensures
            copy@ == self@,
    {
        Header { name: self.name.clone(), value: self.value.clone() }
    }
}

impl Header {
    pub fn new(name: String, value: String) -> (header: Header)
        ensures
            header@ == (HeaderParts { name: name@, value: value@ }),
    {
        Header { name, value }
    }

    pub fn name(&self) -> (name: String)
        ensures
            name@ == self@.name,
    {
        self.name.clone()
    }

    pub fn value(&self) -> (value: String)
        ensures
            value@ == self@.value,
    {
        self.value.clone()
    }
}

/// The headers of a list, each seen as its parts.
pub open spec fn header_parts(headers: Seq<Header>) -> Seq<HeaderParts> {
    Seq::new(headers.len(), |i: int| headers[i]@)
}

/// A response: status line, headers and body.
#[derive(Debug, PartialEq, Eq)]
pub struct HttpResponse {
    version: String,
    status_code: u32,
    reason: String,
    headers: Vec<Header>,
    body: String,
}

impl View for HttpResponse {
    type V = ResponseParts;

    closed spec fn view(&self) -> ResponseParts {
        ResponseParts {
            version: self.version@,
            status_code: self.status_code as nat,
            reason: self.reason@,
            headers: header_parts(self.headers@),
            body: self.body@,
        }
    }
}

/// What a reading gave, with the response or the fault seen as its view.
pub open spec fn outcome(result: Result<HttpResponse, ValidationError>) -> Result<
    ResponseParts,
    Refusal,
> {
    match result {
        Ok(response) => Ok(response@),
        Err(fault) => Err(fault@),
    }
}

impl HttpResponse {
    /// A response has a version and a status code from 100 to 599.
    #[verifier::type_invariant]
    closed spec fn well_formed(&self) -> bool {
        &&& self.version@.len() > 0
        &&& 100 <= self.status_code <= 599
    }

    /// Reads `raw_response` as a response.
    pub fn new(raw_response: String) -> (result: Result<HttpResponse, ValidationError>)
        ensures
            outcome(result) == response_of(raw_response@),
    {
        let text: &str = raw_response.as_str();
        let chars: Vec<char> = chars_of(text);
        let n: usize = chars.len();
        let ghost s = chars@;
        let first_line: (usize, usize) = line_span(&chars, 0);
        let status: StatusLine = match read_status_line(text, &chars, first_line.0) {
            Ok(status) => status,
            Err(fault) => {
                return Err(fault);
            },
        };
        let mut headers: Vec<Header> = Vec::new();
        let mut end: usize = first_line.1;
        let ghost mut k: nat = 1;
        loop
            invariant
                chars@ == s,
                text@ == s,
                raw_response@ == s,
                n == s.len(),
                status_line_formed(line(s, 0)),
                status_code_valid(status_token_of(line(s, 0))),
                status.version@ == version_of(line(s, 0)),
                status.code == decimal(status_token_of(line(s, 0))),
                status.reason@ == reason_of(line(s, 0)),
                k >= 1,
                end <= n,
                end + 1 == line_start(s, k),
                header_stop(s, 1) == header_stop(s, k),
                headers@.len() == k - 1,
                forall|i: int|
                    0 <= i < k - 1 ==> (#[trigger] headers@[i])@ == header_of(
                        line(s, (i + 1) as nat),
                    ),
            decreases n - end,
        {
            if n - end <= 1 {
                return Err(ValidationError::MissingBodySeparator);
            }
            let start: usize = end + 1;
            let span: (usize, usize) = line_span(&chars, start);
            proof {
                assert(((k + 1) - 1) as nat == k);
                assert(line_start(s, k + 1) == span.1 + 1);
                lemma_first_in_piece(s, ':', start as int, span.0 as int);
                lemma_first_contains(line(s, k), ':');
            }
            if span.0 == start {
                let body: String = if n - span.1 > 1 {
                    slice_of(text, span.1 + 1, n)
                } else {
                    String::new()
                };
                proof {
                    assert(header_parts(headers@) == headers_of(s, k));
                }
                return Ok(
                    HttpResponse {
                        version: status.version,
                        status_code: status.code,
                        reason: status.reason,
                        headers,
                        body,
                    },
                );
            }
            if find_char(&chars, ':', start, span.0) == span.0 {
                return Err(
                    ValidationError::MalformedHeader { line: slice_of(text, start, span.0) },
                );
            }
            headers.push(read_header(text, &chars, start, span.0));
            end = span.1;
            proof {
                k = k + 1;
            }
        }
    }

    /// Reads the bytes received as a response: as UTF-8 first, then as text.
    pub fn from_bytes(received: &[u8]) -> (result: Result<HttpResponse, ValidationError>)
        ensures
            outcome(result) == response_of_bytes(received@),
    {
        match core::str::from_utf8(received) {
            Ok(text) => {
                proof {
                    encode_utf8_decode_utf8(text@);
                }
                HttpResponse::new(text.to_owned())
            },
            Err(_) => Err(ValidationError::InvalidEncoding),
        }
    }

    pub fn version(&self) -> (version: String)
        ensures
            version@ == self@.version,
            version@.len() > 0,
    {
        proof {
            use_type_invariant(self);
        }
        self.version.clone()
    }

    pub fn status_code(&self) -> (status_code: u32)
        ensures
            status_code == self@.status_code,
            100 <= status_code <= 599,
    {
        proof {
            use_type_invariant(self);
        }
        self.status_code
    }

    pub fn reason(&self) -> (reason: String)
        ensures
            reason@ == self@.reason,
    {
        self.reason.clone()
    }

    pub fn headers(&self) -> (headers: &Vec<Header>)
        ensures
            header_parts(headers@) == self@.headers,
    {
        &self.headers
    }

    pub fn body(&self) -> (body: String)
        ensures
            body@ == self@.body,
    {
        self.body.clone()
    }
}

/// What a well-formed status line with a valid status code holds.
struct StatusLine {
    version: String,
    code: u32,
    reason: String,
}

/// Where the content of the line that starts at `start` ends, and where the
/// line itself ends.
fn line_span(chars: &Vec<char>, start: usize) -> (span: (usize, usize))
    requires
        start <= chars@.len(),
    ensures
        start <= span.0 <= span.1 <= chars@.len(),
        span.1 == line_end(chars@, start as int),
        chars@.subrange(start as int, span.0 as int) == without_cr(
            chars@.subrange(start as int, span.1 as int),
        ),
{
    let end: usize = find_char(chars, '\n', start, chars.len());
    if end > start && chars[end - 1] == '\r' {
        proof {
            assert(chars@.subrange(start as int, end as int).drop_last() == chars@.subrange(
                start as int,
                end - 1,
            ));
        }
        (end - 1, end)
    } else {
        (end, end)
    }
}

/// Reads the first `to` characters of the text as a status line.
fn read_status_line(text: &str, chars: &Vec<char>, to: usize) -> (result: Result<
    StatusLine,
    ValidationError,
>)
    requires
        chars@ == text@,
        to <= chars@.len(),
    ensures
        match result {
            Ok(status) => {
                &&& status_line_formed(chars@.take(to as int))
                &&& status_code_valid(status_token_of(chars@.take(to as int)))
                &&& status.version@ == version_of(chars@.take(to as int))
                &&& status.code == decimal(status_token_of(chars@.take(to as int)))
                &&& status.reason@ == reason_of(chars@.take(to as int))
            },
            Err(fault) => if status_line_formed(chars@.take(to as int)) {
                &&& !status_code_valid(status_token_of(chars@.take(to as int)))
                &&& fault@ == Refusal::InvalidStatusCode {
                    token: status_token_of(chars@.take(to as int)),
                }
            } else {
                fault@ == Refusal::MalformedStatusLine { line: chars@.take(to as int) }
            },
        },
{
    let ghost s = chars@;
    let ghost status = s.take(to as int);
    let space: usize = find_char(chars, ' ', 0, to);
    proof {
        lemma_first_in_piece(s, ' ', 0, to as int);
        assert(status.take(space as int) == s.subrange(0, space as int));
    }
    if space == 0 || space == to {
        proof {
            if space == to {
                assert(before_first(Seq::<char>::empty(), ' ').len() == 0);
            }
        }
        return Err(ValidationError::MalformedStatusLine { line: slice_of(text, 0, to) });
    }
    let from: usize = space + 1;
    let next: usize = find_char(chars, ' ', from, to);
    proof {
        let tail = after_first(status, ' ');
        assert(tail == s.subrange(from as int, to as int));
        lemma_first_in_piece(s, ' ', from as int, to as int);
        assert(tail.take(next - from) == s.subrange(from as int, next as int));
        if next < to {
            assert(tail.skip(next - from + 1) == s.subrange(next + 1, to as int));
        }
    }
    if next == from {
        return Err(ValidationError::MalformedStatusLine { line: slice_of(text, 0, to) });
    }
    let code: u32 = match read_decimal(chars, from, next, 599) {
        Some(code) => code,
        None => {
            return Err(ValidationError::InvalidStatusCode { token: slice_of(text, from, next) });
        },
    };
    if code < 100 {
        return Err(ValidationError::InvalidStatusCode { token: slice_of(text, from, next) });
    }
    let reason: String = if next < to {
        slice_of(text, next + 1, to)
    } else {
        String::new()
    };
    Ok(StatusLine { version: slice_of(text, 0, space), code, reason })
}

/// Reads the characters `from..to` of the text as a header.
fn read_header(text: &str, chars: &Vec<char>, from: usize, to: usize) -> (header: Header)
    requires
        chars@ == text@,
        from <= to <= chars@.len(),
    ensures
        header@ == header_of(chars@.subrange(from as int, to as int)),
{
    let ghost s = chars@;
    let ghost l = s.subrange(from as int, to as int);
    let separator: Vec<char> = chars_of(": ");
    proof {
        reveal_strlit(": ");
        assert(separator@ == header_separator());
        lemma_first_occurrence_piece(s, separator@, from as int, from as int, to as int);
        lemma_first_occurrence(s.take(to as int), separator@, from as int, to as int);
    }
    let at: usize = find_pattern(chars, &separator, from, to);
    if at < to {
        proof {
            assert(l.take(at - from) == s.subrange(from as int, at as int));
            assert(l.skip(at - from + 2) == s.subrange(at + 2, to as int));
        }
        Header { name: slice_of(text, from, at), value: slice_of(text, at + 2, to) }
    } else {
        let colon: usize = find_char(chars, ':', from, to);
        proof {
            lemma_first_in_piece(s, ':', from as int, to as int);
            assert(l.take(colon - from) == s.subrange(from as int, colon as int));
            if colon < to {
                assert(l.skip(colon - from + 1) == s.subrange(colon + 1, to as int));
            }
        }
        let value: String = if colon < to {
            slice_of(text, colon + 1, to)
        } else {
            String::new()
        };
        Header { name: slice_of(text, from, colon), value }
    }
}

} // verus!
