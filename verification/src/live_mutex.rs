//! The client of the lock service: its requests, the reading of its responses,
//! and what its answers mean.

use crate::http_framing::{
    chunked_body_complete, chunks_complete, dechunked, declared_chunked, declared_length,
    decode_chunked_body, endpoint_of, has_line_break, http_path, lossy_text, lossy_text_of_bytes,
    parse_http_endpoint, response_content_length, response_is_chunked, text_of_bytes, utf8_error,
    Endpoint,
};
use crate::model::text_view;
use crate::text::{
    begins_with, contains_char, dec, decimal, decimal_u64, has_text, lines, lines_of, lowered,
    number_value, occurs_at, parse_number, starts_with, texts, to_lower, words, words_of,
};
use vstd::prelude::*;
use vstd::string::*;
use vstd::utf8::{decode_utf8, valid_utf8};

verus! {

/// How the lock service is reached.
#[derive(Debug)]
pub struct LiveMutexConfig {
    pub base_url: String,
    pub auth_token: Option<String>,
    pub request_timeout_ms: u64,
    pub max_response_bytes: u64,
}

impl Clone for LiveMutexConfig {
    fn clone(&self) -> (r: Self)
        ensures
            r == *self,
    {
        LiveMutexConfig {
            base_url: self.base_url.clone(),
            auth_token: self.auth_token.clone(),
            request_timeout_ms: self.request_timeout_ms,
            max_response_bytes: self.max_response_bytes,
        }
    }
}

// Requests.

/// The authorisation header, with its line break, where there is a token.
pub open spec fn authorization(token: Option<Seq<char>>) -> Seq<char> {
    match token {
        Some(t) => "Authorization: Bearer "@ + t + "\r\n"@,
        None => Seq::empty(),
    }
}

/// The head of a request.
pub open spec fn request_head(
    endpoint: Endpoint,
    token: Option<Seq<char>>,
    path: Seq<char>,
    body_len: nat,
) -> Seq<char> {
    "POST "@ + (endpoint.path_prefix + path) + " HTTP/1.1\r\nHost: "@ + endpoint.host_header
        + "\r\nContent-Type: application/json\r\nAccept: application/json\r\n"@ + authorization(token)
        + "Connection: close\r\nContent-Length: "@ + dec(body_len) + "\r\n\r\n"@
}

/// A request that is ready to be sent.
#[derive(Debug)]
pub struct LiveMutexRequest {
    pub addr: String,
    pub head: String,
    pub timeout_ms: u64,
    pub max_response_bytes: u64,
}

/// The most bytes that are read of a response, whatever is configured.
pub const HARD_MAX_RESPONSE_BYTES: u64 = 16_777_216;

/// A byte limit kept between one and the hard maximum.
pub open spec fn response_limit(configured: u64) -> u64 {
    if configured < 1 {
        1
    } else if configured > HARD_MAX_RESPONSE_BYTES {
        HARD_MAX_RESPONSE_BYTES
    } else {
        configured
    }
}

/// Prepares a request with a JSON body of the given length. A token with a line
/// break is refused before anything is sent.
pub fn live_mutex_request(config: &LiveMutexConfig, path: &str, body_len: usize) -> (r: Result<
    LiveMutexRequest,
    String,
>)
    ensures
        match endpoint_of(config.base_url@) {
            Err(m) => r matches Err(e) && e@ == m,
            Ok(endpoint) => if config.auth_token is Some && has_line_break(
                config.auth_token->0@,
            ) {
                r matches Err(e) && e@ == "live-mutex auth token must not contain CRLF characters"@
            } else {
                &&& r is Ok
                &&& r->Ok_0.addr@ == endpoint.addr
                &&& r->Ok_0.head@ == request_head(
                    endpoint,
                    text_view(config.auth_token),
                    path@,
                    body_len as nat,
                )
                &&& r->Ok_0.timeout_ms == if config.request_timeout_ms < 1 {
                    1
                } else {
                    config.request_timeout_ms
                }
                &&& r->Ok_0.max_response_bytes == response_limit(config.max_response_bytes)
            },
        },
{
    let endpoint = match parse_http_endpoint(config.base_url.as_str()) {
        Err(e) => {
            return Err(e);
        },
        Ok(endpoint) => endpoint,
    };
    let mut auth = String::new();
    if let Some(token) = &config.auth_token {
        if contains_char(token.as_str(), '\r') || contains_char(token.as_str(), '\n') {
            return Err("live-mutex auth token must not contain CRLF characters".to_owned());
        }
        auth = "Authorization: Bearer ".to_owned();
        auth.append(token.as_str());
        auth.append("\r\n");
    }
    assert(auth@ =~= authorization(text_view(config.auth_token)));
    let mut head = "POST ".to_owned();
    head.append(http_path(endpoint.path_prefix.as_str(), path).as_str());
    head.append(" HTTP/1.1\r\nHost: ");
    head.append(endpoint.host_header.as_str());
    head.append("\r\nContent-Type: application/json\r\nAccept: application/json\r\n");
    head.append(auth.as_str());
    head.append("Connection: close\r\nContent-Length: ");
    head.append(decimal(body_len).as_str());
    head.append("\r\n\r\n");
    let timeout_ms: u64 = if config.request_timeout_ms < 1 {
        1
    } else {
        config.request_timeout_ms
    };
    let max_response_bytes: u64 = if config.max_response_bytes < 1 {
        1
    } else if config.max_response_bytes > HARD_MAX_RESPONSE_BYTES {
        HARD_MAX_RESPONSE_BYTES
    } else {
        config.max_response_bytes
    };
    Ok(LiveMutexRequest { addr: endpoint.addr, head, timeout_ms, max_response_bytes })
}

// Reading a response.

/// Whether the empty line that ends the headers begins at a position.
pub open spec fn head_ends_at(s: Seq<u8>, i: int) -> bool {
    0 <= i && i + 4 <= s.len() && s[i] == 13 && s[i + 1] == 10 && s[i + 2] == 13 && s[i + 3] == 10
}

/// The end of the headers, at `i` or after it.
pub open spec fn head_end_from(s: Seq<u8>, i: int) -> Option<int>
    decreases s.len() - i,
{
    if i + 4 > s.len() {
        None
    } else if head_ends_at(s, i) {
        Some(i)
    } else {
        head_end_from(s, i + 1)
    }
}

/// The end of the headers.
pub open spec fn head_end(s: Seq<u8>) -> Option<int> {
    head_end_from(s, 0)
}

proof fn head_end_lies_inside(s: Seq<u8>, i: int)
    requires
        0 <= i,
    ensures
        head_end_from(s, i) matches Some(k) ==> i <= k && k + 4 <= s.len(),
    decreases s.len() - i,
{
    if i + 4 <= s.len() && !head_ends_at(s, i) {
        head_end_lies_inside(s, i + 1);
    }
}

/// More bytes do not move the end of the headers.
proof fn head_end_stays(s: Seq<u8>, more: Seq<u8>, i: int)
    requires
        0 <= i,
        head_end_from(s, i) is Some,
    ensures
        head_end_from(s + more, i) == head_end_from(s, i),
    decreases s.len() - i,
{
    if !head_ends_at(s, i) {
        assert(!head_ends_at(s + more, i));
        head_end_stays(s, more, i + 1);
    }
}

fn find_head_end(s: &Vec<u8>) -> (r: Option<usize>)
    ensures
        match (r, head_end(s@)) {
            (Some(i), Some(k)) => i == k && i + 4 <= s@.len(),
            (None, None) => true,
            _ => false,
        },
{
    let n: usize = s.len();
    if n < 4 {
        return None;
    }
    let mut i: usize = 0;
    while i <= n - 4
        invariant
            i <= n - 3,
            4 <= n == s@.len(),
            head_end(s@) == head_end_from(s@, i as int),
        decreases n - i,
    {
        if s[i] == 13 && s[i + 1] == 10 && s[i + 2] == 13 && s[i + 3] == 10 {
            return Some(i);
        }
        i = i + 1;
    }
    None
}

/// A response as far as it has been read.
#[derive(Debug)]
pub struct ResponseReader {
    response: Vec<u8>,
    header_end: Option<usize>,
    expected_len: Option<usize>,
    chunked: bool,
}

/// What to do next with a response.
#[derive(Debug)]
pub enum ReadStep {
    /// Read more.
    Read,
    /// The response is all there.
    Done,
    /// The response is longer than is allowed.
    TooLong(String),
}

impl ResponseReader {
    /// The bytes read so far.
    pub closed spec fn bytes(self) -> Seq<u8> {
        self.response@
    }

    /// Whether the headers have been read, and what they declare.
    pub closed spec fn ready(self) -> bool {
        self.header_end is Some
    }

    /// What is known of the headers is what the bytes read say.
    pub closed spec fn well_formed(self) -> bool {
        match self.header_end {
            None => head_end(self.response@) is None && self.expected_len is None
                && !self.chunked,
            Some(end) => {
                let headers = self.response@.take(end as int);
                &&& head_end(self.response@) == Some(end as int)
                &&& valid_utf8(headers)
                &&& match (self.expected_len, declared_length(decode_utf8(headers))) {
                    (Some(n), Ok(Some(v))) => n == v,
                    (None, Ok(None)) => true,
                    _ => false,
                }
                &&& self.chunked == declared_chunked(decode_utf8(headers))
            },
        }
    }

    /// A reader that has read nothing.
    pub fn new() -> (r: ResponseReader)
        ensures
            r.well_formed(),
            r.bytes() == Seq::<u8>::empty(),
    {
        ResponseReader {
            response: Vec::new(),
            header_end: None,
            expected_len: None,
            chunked: false,
        }
    }

    /// Decides what to do next. A body of declared length ends there, whatever
    /// more has been read; a chunked one ends with its last chunk.
    pub fn next_step(&mut self, max_response_bytes: u64) -> (r: ReadStep)
        requires
            old(self).well_formed(),
        ensures
            final(self).well_formed(),
            match response_state(old(self).bytes(), max_response_bytes) {
                ResponseState::TooLong => {
                    &&& final(self).bytes() == old(self).bytes()
                    &&& r is TooLong
                    &&& r->TooLong_0@ == "live-mutex response exceeded "@ + dec(
                        max_response_bytes as nat,
                    ) + " bytes"@
                },
                ResponseState::Complete(n) => r is Done && final(self).bytes() == old(
                    self,
                ).bytes().take(n),
                ResponseState::Partial => r is Read && final(self).bytes() == old(self).bytes(),
            },
    {
        if self.response.len() as u64 > max_response_bytes {
            let mut e = "live-mutex response exceeded ".to_owned();
            e.append(decimal_u64(max_response_bytes).as_str());
            e.append(" bytes");
            return ReadStep::TooLong(e);
        }
        proof {
            head_end_lies_inside(self.response@, 0);
        }
        if let Some(end) = self.header_end {
            let total: usize = self.response.len();
            let body_start: usize = end + 4;
            let body_len: usize = total - body_start;
            if let Some(length) = self.expected_len {
                if body_len >= length {
                    let ghost before = self.response@;
                    self.response.truncate(body_start + length);
                    assert(self.response@ =~= before.take(body_start + length));
                    assert(before =~= self.response@ + before.skip(body_start + length));
                    proof {
                        head_end_in_prefix(self.response@, before, 0);
                    }
                    assert(self.response@.take(end as int) =~= before.take(end as int));
                    return ReadStep::Done;
                }
            } else if self.chunked {
                let body = vstd::slice::slice_subrange(self.response.as_slice(), body_start, total);
                if chunked_body_complete(body) {
                    assert(self.response@.take(total as int) =~= self.response@);
                    return ReadStep::Done;
                }
            }
        }
        ReadStep::Read
    }

    /// Takes in more bytes; reads the headers once they are all there. An error
    /// says what is wrong with them.
    pub fn absorb(&mut self, more: &[u8]) -> (r: Result<(), String>)
        requires
            old(self).well_formed(),
        ensures
            final(self).bytes() == old(self).bytes() + more@,
            match r {
                Ok(_) => final(self).well_formed(),
                Err(e) => !old(self).ready() && head_complaint(final(self).bytes()) == Some(e@),
            },
            old(self).ready() ==> r is Ok,
            !old(self).ready() && head_complaint(final(self).bytes()) is Some ==> r is Err,
    {
        let ghost before = self.response@;
        let mut i: usize = 0;
        while i < more.len()
            invariant
                i <= more@.len(),
                self.response@ == before + more@.take(i as int),
                self.header_end == old(self).header_end,
                self.expected_len == old(self).expected_len,
                self.chunked == old(self).chunked,
            decreases more@.len() - i,
        {
            self.response.push(more[i]);
            assert(more@.take(i + 1) =~= more@.take(i as int).push(more@[i as int]));
            i = i + 1;
        }
        assert(more@.take(i as int) =~= more@);
        if self.header_end.is_some() {
            proof {
                head_end_lies_inside(before, 0);
                head_end_stays(before, more@, 0);
                assert(self.response@.take(self.header_end->0 as int) =~= before.take(
                    self.header_end->0 as int,
                ));
            }
            return Ok(());
        }
        if let Some(end) = find_head_end(&self.response) {
            let head = vstd::slice::slice_subrange(self.response.as_slice(), 0, end);
            assert(head@ =~= self.response@.take(end as int));
            let headers = match text_of_bytes(head) {
                Err(reason) => {
                    let mut e = "live-mutex response headers are not utf8: ".to_owned();
                    e.append(reason.as_str());
                    return Err(e);
                },
                Ok(headers) => headers,
            };
            match response_content_length(headers.as_str()) {
                Err(e) => {
                    return Err(e);
                },
                Ok(length) => {
                    self.expected_len = length;
                },
            }
            self.chunked = response_is_chunked(headers.as_str());
            self.header_end = Some(end);
        }
        Ok(())
    }

    /// Gives up the bytes read.
    pub fn into_bytes(self) -> (r: Vec<u8>)
        ensures
            r@ == self.bytes(),
    {
        self.response
    }
}

/// What is wrong with the headers of a response, once they are all there.
pub open spec fn head_complaint(response: Seq<u8>) -> Option<Seq<char>> {
    match head_end(response) {
        None => None,
        Some(end) => {
            let head = response.take(end);
            if !valid_utf8(head) {
                Some("live-mutex response headers are not utf8: "@ + utf8_error(head))
            } else {
                match declared_length(decode_utf8(head)) {
                    Err(e) => Some(e),
                    Ok(_) => None,
                }
            }
        },
    }
}

/// How far a response has come.
pub enum ResponseState {
    TooLong,
    /// All there; the response is that many bytes.
    Complete(int),
    Partial,
}

/// How far a response with sound headers has come: it is complete when as much
/// of the body is there as the headers declare.
pub open spec fn response_state(response: Seq<u8>, max_response_bytes: u64) -> ResponseState {
    if response.len() > max_response_bytes {
        ResponseState::TooLong
    } else {
        match head_end(response) {
            None => ResponseState::Partial,
            Some(end) => {
                let headers = decode_utf8(response.take(end));
                match declared_length(headers) {
                    Ok(Some(length)) => if response.len() - (end + 4) >= length {
                        ResponseState::Complete((end + 4 + length) as int)
                    } else {
                        ResponseState::Partial
                    },
                    _ => if declared_chunked(headers) && chunks_complete(
                        response.skip(end + 4),
                        0,
                    ) {
                        ResponseState::Complete(response.len() as int)
                    } else {
                        ResponseState::Partial
                    },
                }
            },
        }
    }
}

proof fn head_end_in_prefix(prefix: Seq<u8>, all: Seq<u8>, i: int)
    requires
        0 <= i,
        prefix.len() <= all.len(),
        prefix == all.take(prefix.len() as int),
        head_end_from(all, i) is Some,
        head_end_from(all, i)->0 + 4 <= prefix.len(),
    ensures
        head_end_from(prefix, i) == head_end_from(all, i),
    decreases all.len() - i,
{
    head_end_lies_inside(all, i);
    if !head_ends_at(all, i) {
        assert(!head_ends_at(prefix, i));
        head_end_in_prefix(prefix, all, i + 1);
    } else {
        assert(head_ends_at(prefix, i));
    }
}

// What a response says.

/// The status code of a response: the second word of its first line.
pub open spec fn status_of(headers: Seq<char>) -> Option<nat> {
    let all = lines_of(headers);
    if all.len() == 0 || words_of(all[0]).len() < 2 {
        None
    } else {
        number_value(words_of(all[0])[1], 10, u16::MAX as nat)
    }
}

/// Whether some line of the headers declares a chunked body in the plain form.
pub open spec fn plainly_chunked(headers: Seq<char>) -> bool {
    exists|i: int|
        0 <= i < lines_of(headers).len() && begins_with(
            lowered(#[trigger] lines_of(headers)[i]),
            "transfer-encoding: chunked"@,
        )
}

/// The body of a successful response, or why there is none.
pub open spec fn reply_body(path: Seq<char>, response: Seq<u8>) -> Result<Seq<u8>, Seq<char>> {
    match head_end(response) {
        None => Err("live-mutex response missing HTTP headers"@),
        Some(end) => {
            let head = response.take(end);
            if !valid_utf8(head) {
                Err("live-mutex response headers are not utf8: "@ + utf8_error(head))
            } else {
                let headers = decode_utf8(head);
                match status_of(headers) {
                    None => Err("live-mutex response missing status code"@),
                    Some(status) => {
                        let raw = response.skip(end + 4);
                        let body = if plainly_chunked(headers) {
                            dechunked(raw, 0)
                        } else {
                            Ok(raw)
                        };
                        match body {
                            Err(e) => Err(e),
                            Ok(body) => if 200 <= status < 300 {
                                Ok(body)
                            } else {
                                Err(
                                    "live-mutex "@ + path + " returned HTTP "@ + dec(status)
                                        + ": "@ + lossy_text(body),
                                )
                            },
                        }
                    },
                }
            }
        },
    }
}

fn read_status(headers: &str) -> (r: Option<u64>)
    ensures
        match (r, status_of(headers@)) {
            (Some(a), Some(b)) => a == b,
            (None, None) => true,
            _ => false,
        },
{
    let all = lines(headers);
    let ghost views = texts(all@);
    if all.len() == 0 {
        return None;
    }
    assert(views[0] == all@[0]@);
    let parts = words(all[0].as_str());
    let ghost part_views = texts(parts@);
    if parts.len() < 2 {
        return None;
    }
    assert(part_views[1] == parts@[1]@);
    parse_number(parts[1].as_str(), 10, 65_535)
}

fn is_plainly_chunked(headers: &str) -> (r: bool)
    ensures
        r == plainly_chunked(headers@),
{
    let all = lines(headers);
    let ghost views = texts(all@);
    let mut i: usize = 0;
    while i < all.len()
        invariant
            i <= all@.len(),
            views == texts(all@),
            views == lines_of(headers@),
            forall|j: int|
                0 <= j < i ==> !begins_with(
                    lowered(#[trigger] views[j]),
                    "transfer-encoding: chunked"@,
                ),
        decreases all@.len() - i,
    {
        assert(views[i as int] == all@[i as int]@);
        if starts_with(to_lower(all[i].as_str()).as_str(), "transfer-encoding: chunked") {
            return true;
        }
        i = i + 1;
    }
    false
}

/// Reads a whole response.
pub fn live_mutex_reply(path: &str, response: &Vec<u8>) -> (r: Result<Vec<u8>, String>)
    ensures
        match (r, reply_body(path@, response@)) {
            (Ok(v), Ok(s)) => v@ == s,
            (Err(e), Err(m)) => e@ == m,
            _ => false,
        },
{
    let end: usize = match find_head_end(response) {
        None => {
            return Err("live-mutex response missing HTTP headers".to_owned());
        },
        Some(end) => end,
    };
    let total: usize = response.len();
    let head = vstd::slice::slice_subrange(response.as_slice(), 0, end);
    assert(head@ =~= response@.take(end as int));
    let headers = match text_of_bytes(head) {
        Err(reason) => {
            let mut e = "live-mutex response headers are not utf8: ".to_owned();
            e.append(reason.as_str());
            return Err(e);
        },
        Ok(headers) => headers,
    };
    let status: u64 = match read_status(headers.as_str()) {
        None => {
            return Err("live-mutex response missing status code".to_owned());
        },
        Some(status) => status,
    };
    let raw = vstd::slice::slice_subrange(response.as_slice(), end + 4, total);
    assert(raw@ =~= response@.skip(end + 4));
    let body = if is_plainly_chunked(headers.as_str()) {
        match decode_chunked_body(raw) {
            Err(e) => {
                return Err(e);
            },
            Ok(body) => body,
        }
    } else {
        vstd::slice::slice_to_vec(raw)
    };
    if status < 200 || status >= 300 {
        let mut e = "live-mutex ".to_owned();
        e.append(path);
        e.append(" returned HTTP ");
        e.append(decimal_u64(status).as_str());
        e.append(": ");
        e.append(lossy_text_of_bytes(body.as_slice()).as_str());
        return Err(e);
    }
    Ok(body)
}

/// The answer to a lock request.
#[derive(Debug)]
pub struct LiveMutexLockResponse {
    pub acquired: bool,
    pub lock_uuid: Option<String>,
    pub error: Option<String>,
}

/// What the answer to a lock request means: the identifier of the lock, or that
/// the lock is busy.
pub fn live_mutex_lock_outcome(key: &str, response: LiveMutexLockResponse) -> (r: Result<
    String,
    String,
>)
    ensures
        if !response.acquired {
            r matches Err(e) && e@ == "coordination lock busy: "@ + key@ + ": "@ + (
            match response.error {
                Some(detail) => detail@,
                None => "not acquired"@,
            })
        } else {
            match response.lock_uuid {
                Some(id) => r == Ok::<String, String>(id),
                None => r matches Err(e) && e@ == "live-mutex lock response missing lockUuid"@,
            }
        },
{
    if !response.acquired {
        let detail = match response.error {
            Some(detail) => detail,
            None => "not acquired".to_owned(),
        };
        let mut e = "coordination lock busy: ".to_owned();
        e.append(key);
        e.append(": ");
        e.append(detail.as_str());
        return Err(e);
    }
    match response.lock_uuid {
        Some(id) => Ok(id),
        None => Err("live-mutex lock response missing lockUuid".to_owned()),
    }
}

/// The head of a response ends at the first blank line.
pub proof fn heads_end_at_a_blank_line(s: Seq<u8>)
    ensures
        match head_end(s) {
            Some(k) => 0 <= k && k + 4 <= s.len() && s.subrange(k, k + 4) == seq![
                13u8,
                10u8,
                13u8,
                10u8,
            ] && forall|j: int| 0 <= j < k ==> !#[trigger] head_ends_at(s, j),
            None => forall|j: int| !#[trigger] head_ends_at(s, j),
        },
{
    first_ends_are_found(s, 0);
    if head_end(s) is Some {
        let k = head_end(s)->0;
        assert(s.subrange(k, k + 4) =~= seq![13u8, 10u8, 13u8, 10u8]);
    }
}

proof fn first_ends_are_found(s: Seq<u8>, i: int)
    requires
        0 <= i,
    ensures
        match head_end_from(s, i) {
            Some(k) => i <= k && head_ends_at(s, k) && forall|j: int|
                i <= j < k ==> !#[trigger] head_ends_at(s, j),
            None => forall|j: int| i <= j ==> !#[trigger] head_ends_at(s, j),
        },
    decreases s.len() - i,
{
    if i + 4 <= s.len() && !head_ends_at(s, i) {
        first_ends_are_found(s, i + 1);
    }
}

/// A response that is told to be all there is no longer than is allowed, and holds what
/// its head declares: as many bytes as the length says, or chunks up to the last.
pub proof fn whole_responses_hold_what_is_declared(response: Seq<u8>, max_response_bytes: u64)
    ensures
        response_state(response, max_response_bytes) is TooLong <==> response.len()
            > max_response_bytes,
        response_state(response, max_response_bytes) matches ResponseState::Complete(n) ==> {
            &&& head_end(response) is Some
            &&& head_end(response)->0 + 4 <= n <= response.len() <= max_response_bytes
            &&& declared_length(decode_utf8(response.take(head_end(response)->0))) matches Ok(
                Some(length),
            ) ==> n == head_end(response)->0 + 4 + length
        },
        head_end(response) is None && response.len() <= max_response_bytes ==> response_state(
            response,
            max_response_bytes,
        ) is Partial,
{
    heads_end_at_a_blank_line(response);
}

/// A reply is taken exactly where its status tells success; without chunks it is what
/// stands behind the head.
pub proof fn replies_tell_success(path: Seq<char>, response: Seq<u8>)
    ensures
        reply_body(path, response) matches Ok(body) ==> {
            let end = head_end(response)->0;
            let headers = decode_utf8(response.take(end));
            &&& head_end(response) is Some
            &&& status_of(headers) is Some && 200 <= status_of(headers)->0 <= 299
            &&& !plainly_chunked(headers) ==> body == response.skip(end + 4)
        },
        head_end(response) is Some && valid_utf8(response.take(head_end(response)->0)) ==> {
            let headers = decode_utf8(response.take(head_end(response)->0));
            status_of(headers) is Some && 200 <= status_of(headers)->0 <= 299 && !plainly_chunked(
                headers,
            ) ==> reply_body(path, response) is Ok
        },
        head_end(response) is None ==> reply_body(path, response) is Err,
{
}

/// The allowed length of a response is the configured one, between one byte and the
/// fixed maximum.
pub proof fn response_limits_are_kept(configured: u64)
    ensures
        1 <= response_limit(configured) <= 16_777_216,
        1 <= configured <= 16_777_216 ==> response_limit(configured) == configured,
        configured > 16_777_216 ==> response_limit(configured)
            == 16_777_216,
{
}

/// The head of a request posts to its path at the host, tells the length of the body and
/// asks to close the connection; the token stands in it exactly where there is one.
pub proof fn request_heads_tell_the_request(
    endpoint: Endpoint,
    token: Option<Seq<char>>,
    path: Seq<char>,
    body_len: nat,
)
    ensures
        ({
            let head = request_head(endpoint, token, path, body_len);
            &&& begins_with(head, "POST "@ + endpoint.path_prefix + path + " HTTP/1.1\r\n"@)
            &&& has_text(head, "Host: "@ + endpoint.host_header + "\r\n"@)
            &&& has_text(head, "Content-Length: "@ + dec(body_len) + "\r\n\r\n"@)
            &&& token matches Some(t) ==> has_text(head, "Authorization: Bearer "@ + t + "\r\n"@)
        }),
{
    reveal_strlit("POST ");
    reveal_strlit(" HTTP/1.1\r\n");
    reveal_strlit(" HTTP/1.1\r\nHost: ");
    reveal_strlit("Host: ");
    reveal_strlit("\r\n");
    reveal_strlit("\r\n\r\n");
    reveal_strlit("\r\nContent-Type: application/json\r\nAccept: application/json\r\n");
    reveal_strlit("Authorization: Bearer ");
    reveal_strlit("Connection: close\r\nContent-Length: ");
    reveal_strlit("Content-Length: ");
    let head = request_head(endpoint, token, path, body_len);
    let line = "POST "@ + endpoint.path_prefix + path + " HTTP/1.1\r\n"@;
    assert(head.take(line.len() as int) =~= line);
    let host = "Host: "@ + endpoint.host_header + "\r\n"@;
    let at = line.len() as int;
    assert(head.subrange(at, at + host.len()) =~= host);
    assert(occurs_at(head, host, at));
    let length = "Content-Length: "@ + dec(body_len) + "\r\n\r\n"@;
    let from = head.len() - length.len();
    assert(head.subrange(from, from + length.len()) =~= length);
    assert(occurs_at(head, length, from));
    if token is Some {
        let auth = "Authorization: Bearer "@ + token->0 + "\r\n"@;
        let before = "POST "@ + (endpoint.path_prefix + path) + " HTTP/1.1\r\nHost: "@
            + endpoint.host_header
            + "\r\nContent-Type: application/json\r\nAccept: application/json\r\n"@;
        let k = before.len() as int;
        assert(head.subrange(k, k + auth.len()) =~= auth);
        assert(occurs_at(head, auth, k));
    }
}

}
