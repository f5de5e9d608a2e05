//! The proxy core's request protocol: a text request line with a few headers, and a
//! response made of a status line, headers, a blank line, and a body that is either
//! plain (`Content-Length`) or chunk-encoded (`Transfer-Encoding: chunked`).
//!
//! Responses are parsed from the bytes received so far: the parser either completes,
//! fails, or asks for more bytes.

use vstd::prelude::*;
use vstd::string::{StringExecFns, StringSliceAdditionalSpecFns};
use vstd::utf8::{decode_utf8, valid_utf8};
use crate::bytes::{
    contains, contains_word, eq_ignore_case, equals_ignore_case, find, find_byte, find_lf,
    find_token_end, next_lf, parse_uint, parse_uint_in, skip_ws, token_end, trim, trim_end,
};

verus! {

/// Why a response could not be read.
#[derive(Clone, Copy, PartialEq, Eq, Structural, Debug)]
pub enum HttpError {
    /// The connection ended before the response was complete.
    ConnectionClosed,
    /// The head held no status line.
    EmptyResponse,
    /// The status line has fewer than two whitespace-separated tokens.
    InvalidStatusLine,
    /// The second token of the status line is not a status code.
    InvalidStatusCode,
    /// A chunk-size line is not a hexadecimal number.
    InvalidChunkSize,
    /// The body is not UTF-8.
    InvalidUtf8Body,
}

/// A parsed response.
pub struct HttpResponse {
    pub status_code: u16,
    pub body: String,
}

/// Request building and response parsing for the proxy core.
pub struct IpcClient;

/// Path of the proxy core's endpoint: a named pipe on Windows, a Unix domain socket
/// elsewhere, with a `_dev` suffix for development builds.
pub open spec fn ipc_path(windows: bool, dev_build: bool) -> Seq<char> {
    if windows {
        if dev_build {
            "\\\\.\\pipe\\stelliberty_dev"@
        } else {
            "\\\\.\\pipe\\stelliberty"@
        }
    } else {
        if dev_build {
            "/tmp/stelliberty_dev.sock"@
        } else {
            "/tmp/stelliberty.sock"@
        }
    }
}

/// The character of a decimal digit.
pub open spec fn digit_char(d: nat) -> char {
    if d == 0 { '0' } else if d == 1 { '1' } else if d == 2 { '2' } else if d == 3 { '3' } else if d == 4 { '4' }
    else if d == 5 { '5' } else if d == 6 { '6' } else if d == 7 { '7' } else if d == 8 { '8' } else { '9' }
}

/// Decimal notation of `n`, without leading zeros.
pub open spec fn decimal(n: nat) -> Seq<char>
    decreases n,
{
    if n < 10 {
        seq![digit_char(n)]
    } else {
        decimal(n / 10) + seq![digit_char(n % 10)]
    }
}

/// The request text: request line, `Host` header, and, when there is a body, its
/// JSON content type, its length in bytes, a blank line and the body; without a body
/// just the blank line.
pub open spec fn request_text(method: Seq<char>, path: Seq<char>, body: Option<(Seq<char>, nat)>) -> Seq<char> {
    let head = method + " "@ + path + " HTTP/1.1\r\n"@ + "Host: localhost\r\n"@;
    match body {
        Some((text, n_bytes)) => head + "Content-Type: application/json\r\n"@ + "Content-Length: "@ + decimal(n_bytes)
            + "\r\n"@ + "\r\n"@ + text,
        None => head + "\r\n"@,
    }
}

/// `content-length`
pub open spec fn content_length_word() -> Seq<u8> {
    seq![99u8, 111, 110, 116, 101, 110, 116, 45, 108, 101, 110, 103, 116, 104]
}

/// `transfer-encoding`
pub open spec fn transfer_encoding_word() -> Seq<u8> {
    seq![116u8, 114, 97, 110, 115, 102, 101, 114, 45, 101, 110, 99, 111, 100, 105, 110, 103]
}

/// `chunked`
pub open spec fn chunked_word() -> Seq<u8> {
    seq![99u8, 104, 117, 110, 107, 101, 100]
}

/// The status code on the status line `[lo, hi)`: its second whitespace-separated
/// token read as a decimal `u16`.
pub open spec fn status_code_of(d: Seq<u8>, lo: int, hi: int) -> Result<u16, HttpError> {
    let a = skip_ws(d, lo, hi);
    let b = token_end(d, a, hi);
    let c = skip_ws(d, b, hi);
    let e = token_end(d, c, hi);
    if a >= hi || c >= hi {
        Err(HttpError::InvalidStatusLine)
    } else {
        match parse_uint(d, c, e, 10, 65535) {
            Some(v) => Ok(v as u16),
            None => Err(HttpError::InvalidStatusCode),
        }
    }
}

/// Effect of the header line `[lo, hi)` on the body framing seen so far. A line
/// without `:` is ignored. A `Content-Length` header (name compared ignoring ASCII
/// case, name and value trimmed) sets the length, or clears it when the value is
/// not a number; a `Transfer-Encoding` header whose value contains `chunked` selects
/// chunked framing.
pub open spec fn header_effect(d: Seq<u8>, lo: int, hi: int, len: Option<usize>, chunked: bool) -> (Option<usize>, bool) {
    let colon = find_byte(d, lo, hi, 58);
    if colon >= hi {
        (len, chunked)
    } else {
        let ka = skip_ws(d, lo, colon);
        let kb = trim_end(d, ka, colon);
        let va = skip_ws(d, colon + 1, hi);
        let vb = trim_end(d, va, hi);
        let len2 = if eq_ignore_case(d, ka, kb, content_length_word()) {
            match parse_uint(d, va, vb, 10, usize::MAX as nat) {
                Some(n) => Some(n as usize),
                None => None,
            }
        } else {
            len
        };
        let chunked2 = chunked || (eq_ignore_case(d, ka, kb, transfer_encoding_word()) && contains(d, va, vb, chunked_word()));
        (len2, chunked2)
    }
}

/// Body framing announced by the header lines in `[pos, end)`, applied in order.
pub open spec fn scan_headers(d: Seq<u8>, pos: int, end: int, len: Option<usize>, chunked: bool) -> (Option<usize>, bool)
    decreases end - pos,
{
    if pos >= end {
        (len, chunked)
    } else {
        let lf = next_lf(d, pos);
        let stop = if pos <= lf && lf < end { lf + 1 } else { end };
        let (len2, chunked2) = header_effect(d, pos, stop, len, chunked);
        scan_headers(d, stop, end, len2, chunked2)
    }
}

/// Start of the blank line (`\r\n`) that ends the head, scanning whole lines from
/// `pos`; `None` while no complete blank line has arrived.
pub open spec fn head_end(d: Seq<u8>, pos: int) -> Option<int>
    decreases d.len() - pos,
{
    if pos < 0 || pos >= d.len() {
        None
    } else {
        let lf = next_lf(d, pos);
        if lf >= d.len() || lf < pos {
            None
        } else if lf == pos + 1 && d[pos] == 13 {
            Some(pos)
        } else {
            head_end(d, lf + 1)
        }
    }
}

/// The bytes of a chunk-encoded body starting at `pos`, appended to `acc`: blank
/// lines are skipped, a chunk-size line is read as hexadecimal, a size of 0 ends the
/// body once the line after it has arrived, and any other size is followed by that
/// many data bytes and one more line. `None` while the data is incomplete.
pub open spec fn chunked_body(d: Seq<u8>, pos: int, acc: Seq<u8>) -> Option<Result<Seq<u8>, HttpError>>
    decreases d.len() - pos,
{
    if pos < 0 || pos >= d.len() {
        None
    } else {
        let lf = next_lf(d, pos);
        if lf >= d.len() || lf < pos {
            None
        } else {
            let a = skip_ws(d, pos, lf + 1);
            let b = trim_end(d, a, lf + 1);
            if a >= b {
                chunked_body(d, lf + 1, acc)
            } else {
                match parse_uint(d, a, b, 16, usize::MAX as nat) {
                    None => Some(Err(HttpError::InvalidChunkSize)),
                    Some(n) => if n == 0 {
                        if next_lf(d, lf + 1) >= d.len() {
                            None
                        } else {
                            Some(Ok(acc))
                        }
                    } else {
                        let data_end = lf + 1 + n;
                        if data_end >= d.len() {
                            None
                        } else {
                            let lf2 = next_lf(d, data_end);
                            if lf2 >= d.len() || lf2 < data_end {
                                None
                            } else {
                                chunked_body(d, lf2 + 1, acc + d.subrange(lf + 1, data_end))
                            }
                        }
                    },
                }
            }
        }
    }
}

/// The response that the bytes `d` hold: `None` while incomplete, otherwise the
/// status code and body bytes, or why they cannot be read.
pub open spec fn response_of(d: Seq<u8>) -> Option<Result<(u16, Seq<u8>), HttpError>> {
    match head_end(d, 0) {
        None => None,
        Some(h) => if h == 0 {
            Some(Err(HttpError::EmptyResponse))
        } else {
            let lf0 = next_lf(d, 0);
            match status_code_of(d, 0, lf0 + 1) {
                Err(e) => Some(Err(e)),
                Ok(code) => {
                    let (len, chunked) = scan_headers(d, lf0 + 1, h, None, false);
                    if chunked {
                        match chunked_body(d, h + 2, Seq::empty()) {
                            None => None,
                            Some(Err(e)) => Some(Err(e)),
                            Some(Ok(b)) => Some(Ok((code, b))),
                        }
                    } else {
                        match len {
                            Some(n) => if h + 2 + n <= d.len() {
                                Some(Ok((code, d.subrange(h + 2, h + 2 + n))))
                            } else {
                                None
                            },
                            None => Some(Ok((code, Seq::empty()))),
                        }
                    }
                },
            }
        },
    }
}

/// The body as text: its characters when the bytes are UTF-8, else an error.
pub open spec fn decoded(body: Seq<u8>, r: Result<String, HttpError>) -> bool {
    if valid_utf8(body) {
        r matches Ok(s) && s@ == decode_utf8(body)
    } else {
        r == Err::<String, HttpError>(HttpError::InvalidUtf8Body)
    }
}

proof fn lemma_next_lf_bounds(d: Seq<u8>, i: int)
    requires
        0 <= i <= d.len(),
    ensures
        i <= next_lf(d, i) <= d.len(),
        next_lf(d, i) < d.len() ==> d[next_lf(d, i)] == 10,
    decreases d.len() - i,
{
    if i < d.len() && d[i] != 10 {
        lemma_next_lf_bounds(d, i + 1);
    }
}

proof fn lemma_head_end_bounds(d: Seq<u8>, pos: int)
    requires
        0 <= pos,
        head_end(d, pos) is Some,
    ensures
        pos <= head_end(d, pos).unwrap(),
        head_end(d, pos).unwrap() + 2 <= d.len(),
        head_end(d, pos).unwrap() > pos ==> next_lf(d, pos) + 1 <= head_end(d, pos).unwrap(),
    decreases d.len() - pos,
{
    lemma_next_lf_bounds(d, pos);
    let lf = next_lf(d, pos);
    if !(lf == pos + 1 && d[pos] == 13) {
        lemma_head_end_bounds(d, lf + 1);
    }
}

/// Relies on `String::from_utf8` of std: it succeeds exactly on UTF-8 input and
/// then holds the characters that the bytes encode.
#[verifier::external_body]
fn string_from_utf8(bytes: Vec<u8>) -> (r: Option<String>)
    ensures
        match r {
            Some(s) => valid_utf8(bytes@) && s@ == decode_utf8(bytes@),
            None => !valid_utf8(bytes@),
        },
{
    String::from_utf8(bytes).ok()
}

fn decode_body(bytes: Vec<u8>) -> (r: Result<String, HttpError>)
    ensures
        decoded(bytes@, r),
{
    match string_from_utf8(bytes) {
        Some(s) => Ok(s),
        None => Err(HttpError::InvalidUtf8Body),
    }
}

fn content_length_bytes() -> (r: Vec<u8>)
    ensures
        r@ == content_length_word(),
{
    let r = vec![99u8, 111, 110, 116, 101, 110, 116, 45, 108, 101, 110, 103, 116, 104];
    assert(r@ =~= content_length_word());
    r
}

fn transfer_encoding_bytes() -> (r: Vec<u8>)
    ensures
        r@ == transfer_encoding_word(),
{
    let r = vec![116u8, 114, 97, 110, 115, 102, 101, 114, 45, 101, 110, 99, 111, 100, 105, 110, 103];
    assert(r@ =~= transfer_encoding_word());
    r
}

fn chunked_bytes() -> (r: Vec<u8>)
    ensures
        r@ == chunked_word(),
{
    let r = vec![99u8, 104, 117, 110, 107, 101, 100];
    assert(r@ =~= chunked_word());
    r
}

/// Appends `d[lo..hi]` to `acc`.
fn append_range(acc: &mut Vec<u8>, d: &[u8], lo: usize, hi: usize)
    requires
        lo <= hi <= d@.len(),
    ensures
        final(acc)@ == old(acc)@ + d@.subrange(lo as int, hi as int),
{
    let mut i = lo;
    while i < hi
        invariant
            lo <= i <= hi <= d@.len(),
            acc@ == old(acc)@ + d@.subrange(lo as int, i as int),
        decreases hi - i,
    {
        acc.push(d[i]);
        i = i + 1;
        assert(acc@ =~= old(acc)@ + d@.subrange(lo as int, i as int));
    }
}

fn digit_str(d: usize) -> (r: &'static str)
    requires
        d < 10,
    ensures
        r@ == seq![digit_char(d as nat)],
{
    proof {
        reveal_strlit("0");
        reveal_strlit("1");
        reveal_strlit("2");
        reveal_strlit("3");
        reveal_strlit("4");
        reveal_strlit("5");
        reveal_strlit("6");
        reveal_strlit("7");
        reveal_strlit("8");
        reveal_strlit("9");
    }
    if d == 0 {
        "0"
    } else if d == 1 {
        "1"
    } else if d == 2 {
        "2"
    } else if d == 3 {
        "3"
    } else if d == 4 {
        "4"
    } else if d == 5 {
        "5"
    } else if d == 6 {
        "6"
    } else if d == 7 {
        "7"
    } else if d == 8 {
        "8"
    } else {
        "9"
    }
}

/// Decimal notation of `n`.
pub fn decimal_string(n: u64) -> (r: String)
    ensures
        r@ == decimal(n as nat),
    decreases n,
{
    if n < 10 {
        String::from_str(digit_str(n as usize))
    } else {
        let mut r = decimal_string(n / 10);
        r.append(digit_str((n % 10) as usize));
        r
    }
}

impl IpcClient {
    /// Path of the proxy core's endpoint for the given platform family and build.
    pub fn default_ipc_path(windows: bool, dev_build: bool) -> (r: String)
        ensures
            r@ == ipc_path(windows, dev_build),
    {
        if windows {
            if dev_build {
                String::from_str("\\\\.\\pipe\\stelliberty_dev")
            } else {
                String::from_str("\\\\.\\pipe\\stelliberty")
            }
        } else {
            if dev_build {
                String::from_str("/tmp/stelliberty_dev.sock")
            } else {
                String::from_str("/tmp/stelliberty.sock")
            }
        }
    }

    /// Builds the request text for `method` on `path`, with an optional JSON body.
    pub fn build_http_request_static(method: &str, path: &str, body: Option<&str>) -> (r: String)
        ensures
            r@ == request_text(
                method@,
                path@,
                match body {
                    Some(b) => Some((b@, b.spec_bytes().len())),
                    None => None,
                },
            ),
    {
        let mut r = String::from_str(method);
        r.append(" ");
        r.append(path);
        r.append(" HTTP/1.1\r\n");
        r.append("Host: localhost\r\n");
        match body {
            Some(b) => {
                r.append("Content-Type: application/json\r\n");
                r.append("Content-Length: ");
                let n_bytes = b.as_bytes().len();
                let n = decimal_string(n_bytes as u64);
                r.append(n.as_str());
                r.append("\r\n");
                r.append("\r\n");
                r.append(b);
                assert(b.spec_bytes().len() == n_bytes as nat);
                assert(r@ =~= request_text(method@, path@, Some((b@, b.spec_bytes().len()))));
            },
            None => {
                r.append("\r\n");
                assert(r@ =~= request_text(method@, path@, None));
            },
        }
        r
    }

    /// The status code on the status line `[lo, hi)` of `d`.
    pub fn status_code_in(d: &[u8], lo: usize, hi: usize) -> (r: Result<u16, HttpError>)
        requires
            lo <= hi <= d@.len(),
        ensures
            r == status_code_of(d@, lo as int, hi as int),
    {
        let (a, _) = trim(d, lo, hi);
        if a >= hi {
            return Err(HttpError::InvalidStatusLine);
        }
        let b = find_token_end(d, a, hi);
        let (c, _) = trim(d, b, hi);
        if c >= hi {
            return Err(HttpError::InvalidStatusLine);
        }
        let e = find_token_end(d, c, hi);
        match parse_uint_in(d, c, e, 10, 65535) {
            Some(v) => Ok(v as u16),
            None => Err(HttpError::InvalidStatusCode),
        }
    }

    /// The status code of a status line such as `HTTP/1.1 200 OK\r\n`.
    pub fn parse_status_code_static(status_line: &[u8]) -> (r: Result<u16, HttpError>)
        ensures
            r == status_code_of(status_line@, 0, status_line@.len() as int),
    {
        IpcClient::status_code_in(status_line, 0, status_line.len())
    }

    /// Body framing announced by the header lines in `[pos, end)` of `d`.
    pub fn scan_header_lines(d: &[u8], pos: usize, end: usize) -> (r: (Option<usize>, bool))
        requires
            pos <= end <= d@.len(),
        ensures
            r == scan_headers(d@, pos as int, end as int, None, false),
    {
        let cl_word = content_length_bytes();
        let te_word = transfer_encoding_bytes();
        let ch_word = chunked_bytes();
        let mut len: Option<usize> = None;
        let mut chunked = false;
        let mut p = pos;
        while p < end
            invariant
                pos <= p <= end <= d@.len(),
                cl_word@ == content_length_word(),
                te_word@ == transfer_encoding_word(),
                ch_word@ == chunked_word(),
                scan_headers(d@, p as int, end as int, len, chunked) == scan_headers(d@, pos as int, end as int, None, false),
            decreases end - p,
        {
            let lf = find_lf(d, p);
            proof {
                lemma_next_lf_bounds(d@, p as int);
            }
            let stop = if lf < end { lf + 1 } else { end };
            let colon = find(d, p, stop, 58);
            if colon < stop {
                let (ka, kb) = trim(d, p, colon);
                let (va, vb) = trim(d, colon + 1, stop);
                if equals_ignore_case(d, ka, kb, cl_word.as_slice()) {
                    len = match parse_uint_in(d, va, vb, 10, usize::MAX as u64) {
                        Some(n) => Some(n as usize),
                        None => None,
                    };
                }
                if !chunked && equals_ignore_case(d, ka, kb, te_word.as_slice()) {
                    chunked = contains_word(d, va, vb, ch_word.as_slice());
                }
            }
            p = stop;
        }
        (len, chunked)
    }

    /// Start of the blank line that ends the head of `d`, once it has arrived.
    pub fn find_head_end(d: &[u8]) -> (r: Option<usize>)
        ensures
            match r {
                Some(h) => head_end(d@, 0) == Some(h as int),
                None => head_end(d@, 0) is None,
            },
    {
        let mut pos: usize = 0;
        while pos < d.len()
            invariant
                pos <= d@.len(),
                head_end(d@, pos as int) == head_end(d@, 0),
            decreases d@.len() - pos,
        {
            let lf = find_lf(d, pos);
            proof {
                lemma_next_lf_bounds(d@, pos as int);
            }
            if lf >= d.len() {
                return None;
            }
            if lf == pos + 1 && d[pos] == 13 {
                return Some(pos);
            }
            pos = lf + 1;
        }
        None
    }

    /// Reads a chunk-encoded body from `pos` of `d`: `Ok(None)` while incomplete.
    pub fn read_chunked_body_static(d: &[u8], pos: usize) -> (r: Result<Option<String>, HttpError>)
        requires
            pos <= d@.len(),
        ensures
            match chunked_body(d@, pos as int, Seq::empty()) {
                None => r == Ok::<Option<String>, HttpError>(None),
                Some(Err(e)) => r == Err::<Option<String>, HttpError>(e),
                Some(Ok(b)) => if valid_utf8(b) {
                    r matches Ok(Some(s)) && s@ == decode_utf8(b)
                } else {
                    r == Err::<Option<String>, HttpError>(HttpError::InvalidUtf8Body)
                },
            },
    {
        let mut body: Vec<u8> = Vec::new();
        let mut p = pos;
        loop
            invariant
                pos <= p <= d@.len(),
                chunked_body(d@, p as int, body@) == chunked_body(d@, pos as int, Seq::empty()),
            decreases d@.len() - p,
        {
            if p >= d.len() {
                return Ok(None);
            }
            let lf = find_lf(d, p);
            proof {
                lemma_next_lf_bounds(d@, p as int);
            }
            if lf >= d.len() {
                return Ok(None);
            }
            let (a, b) = trim(d, p, lf + 1);
            if a < b {
                match parse_uint_in(d, a, b, 16, usize::MAX as u64) {
                    None => {
                        return Err(HttpError::InvalidChunkSize);
                    },
                    Some(n) => {
                        let n = n as usize;
                        if n == 0 {
                            let end = find_lf(d, lf + 1);
                            if end >= d.len() {
                                return Ok(None);
                            }
                            return match decode_body(body) {
                                Ok(s) => Ok(Some(s)),
                                Err(e) => Err(e),
                            };
                        }
                        if n >= d.len() - (lf + 1) {
                            return Ok(None);
                        }
                        let data_end = lf + 1 + n;
                        let lf2 = find_lf(d, data_end);
                        proof {
                            lemma_next_lf_bounds(d@, data_end as int);
                        }
                        if lf2 >= d.len() {
                            return Ok(None);
                        }
                        append_range(&mut body, d, lf + 1, data_end);
                        p = lf2 + 1;
                    },
                }
            } else {
                p = lf + 1;
            }
        }
    }

    /// Parses the response held by `d`: `Ok(None)` while more bytes are needed.
    pub fn read_http_response_static(d: &[u8]) -> (r: Result<Option<HttpResponse>, HttpError>)
        ensures
            match response_of(d@) {
                None => r == Ok::<Option<HttpResponse>, HttpError>(None),
                Some(Err(e)) => r == Err::<Option<HttpResponse>, HttpError>(e),
                Some(Ok((code, body))) => if valid_utf8(body) {
                    r matches Ok(Some(resp)) && resp.status_code == code && resp.body@ == decode_utf8(body)
                } else {
                    r == Err::<Option<HttpResponse>, HttpError>(HttpError::InvalidUtf8Body)
                },
            },
    {
        let h = match IpcClient::find_head_end(d) {
            None => {
                return Ok(None);
            },
            Some(h) => h,
        };
        proof {
            lemma_head_end_bounds(d@, 0);
            lemma_next_lf_bounds(d@, 0);
            assert(h + 2 <= d@.len());
        }
        if h == 0 {
            return Err(HttpError::EmptyResponse);
        }
        let lf0 = find_lf(d, 0);
        let code = match IpcClient::status_code_in(d, 0, lf0 + 1) {
            Err(e) => {
                return Err(e);
            },
            Ok(c) => c,
        };
        let (len, chunked) = IpcClient::scan_header_lines(d, lf0 + 1, h);
        let total = d.len();
        assert(h + 2 <= total);
        if chunked {
            match IpcClient::read_chunked_body_static(d, h + 2) {
                Err(e) => Err(e),
                Ok(None) => Ok(None),
                Ok(Some(s)) => Ok(Some(HttpResponse { status_code: code, body: s })),
            }
        } else {
            match len {
                Some(n) => {
                    if n > d.len() - (h + 2) {
                        return Ok(None);
                    }
                    let mut bytes: Vec<u8> = Vec::new();
                    append_range(&mut bytes, d, h + 2, h + 2 + n);
                    proof {
                        assert(bytes@ =~= d@.subrange(h + 2, h + 2 + n));
                    }
                    match decode_body(bytes) {
                        Ok(s) => Ok(Some(HttpResponse { status_code: code, body: s })),
                        Err(e) => Err(e),
                    }
                },
                None => {
                    let s = String::new();
                    proof {
                        assert(valid_utf8(Seq::<u8>::empty()));
                        assert(decode_utf8(Seq::<u8>::empty()) =~= Seq::<char>::empty());
                    }
                    Ok(Some(HttpResponse { status_code: code, body: s }))
                },
            }
        }
    }

    /// Parses `d` once the connection has ended: a response still incomplete then is
    /// an unexpected close.
    pub fn read_http_response_at_eof(d: &[u8]) -> (r: Result<HttpResponse, HttpError>)
        ensures
            match response_of(d@) {
                None => r == Err::<HttpResponse, HttpError>(HttpError::ConnectionClosed),
                Some(Err(e)) => r == Err::<HttpResponse, HttpError>(e),
                Some(Ok((code, body))) => if valid_utf8(body) {
                    r matches Ok(resp) && resp.status_code == code && resp.body@ == decode_utf8(body)
                } else {
                    r == Err::<HttpResponse, HttpError>(HttpError::InvalidUtf8Body)
                },
            },
    {
        match IpcClient::read_http_response_static(d) {
            Ok(Some(resp)) => Ok(resp),
            Ok(None) => Err(HttpError::ConnectionClosed),
            Err(e) => Err(e),
        }
    }
}

} // verus!
