//! HTTP framing for the lock service: endpoints, headers, chunked bodies, and
//! the reading of a response piece by piece.

use crate::model::text_view;
use crate::text::{
    begins_with, char_from, chars_of, contains_char, debug_form, debug_text, digits_value, has_char,
    is_space, lines, lines_of, lowered, number_value, parse_number, parted, parting_is_undone,
    parts_stand_side_by_side, same_ignoring_case, split, split_on, split_once, starts_with,
    text_between, texts, trailing_characters_are_cut, trim, trim_end_char, trimmed,
    without_trailing,
};
use vstd::prelude::*;
use vstd::string::*;
use vstd::utf8::{decode_utf8, pop_first_scalar, valid_first_scalar, valid_utf8};

verus! {

// What is had from std.

/// The message of std's error where bytes are no UTF-8.
pub uninterp spec fn utf8_error(bytes: Seq<u8>) -> Seq<char>;

/// `std::str::from_utf8`: the string whose UTF-8 encoding the bytes are, or std's
/// message, which the contract names, where they are the encoding of none.
#[verifier::external_body]
pub(crate) fn text_of_bytes(bytes: &[u8]) -> (r: Result<String, String>)
    ensures
        match r {
            Ok(s) => valid_utf8(bytes@) && s@ == decode_utf8(bytes@),
            Err(e) => !valid_utf8(bytes@) && e@ == utf8_error(bytes@),
        },
{
    match std::str::from_utf8(bytes) {
        Ok(s) => Ok(s.to_owned()),
        Err(error) => Err(error.to_string()),
    }
}

/// The text that std makes of bytes that need not be UTF-8.
pub uninterp spec fn lossy_text(bytes: Seq<u8>) -> Seq<char>;

/// `String::from_utf8_lossy`: the contract names the text, which replaces what is
/// no UTF-8.
#[verifier::external_body]
pub(crate) fn lossy_text_of_bytes(bytes: &[u8]) -> (r: String)
    ensures
        r@ == lossy_text(bytes@),
{
    String::from_utf8_lossy(bytes).into_owned()
}

/// The message of std's error where a text is no hexadecimal number.
pub uninterp spec fn hex_error(text: Seq<char>) -> Seq<char>;

/// `usize::from_str_radix` with radix 16, on a text that is no hexadecimal number
/// that fits: std's message, which the contract names.
#[verifier::external_body]
pub(crate) fn hex_failure(text: &str) -> (r: String)
    requires
        number_value(text@, 16, usize::MAX as nat) is None,
    ensures
        r@ == hex_error(text@),
{
    match usize::from_str_radix(text, 16) {
        Ok(_) => String::new(),
        Err(error) => error.to_string(),
    }
}

/// Reads a hexadecimal number.
fn parse_hex(text: &str) -> (r: Result<usize, String>)
    ensures
        match (r, number_value(text@, 16, usize::MAX as nat)) {
            (Ok(n), Some(v)) => n == v,
            (Err(e), None) => e@ == hex_error(text@),
            _ => false,
        },
{
    match parse_number(text, 16, usize::MAX as u64) {
        Some(n) => Ok(n as usize),
        None => Err(hex_failure(text)),
    }
}

/// The message of std's error where a text is no decimal number.
pub uninterp spec fn decimal_error(text: Seq<char>) -> Seq<char>;

/// `str::parse::<usize>`, on a text that is no decimal number that fits: std's
/// message, which the contract names.
#[verifier::external_body]
pub(crate) fn decimal_failure(text: &str) -> (r: String)
    requires
        number_value(text@, 10, usize::MAX as nat) is None,
    ensures
        r@ == decimal_error(text@),
{
    match text.parse::<usize>() {
        Ok(_) => String::new(),
        Err(error) => error.to_string(),
    }
}

/// Reads a decimal number.
fn parse_decimal(text: &str) -> (r: Result<usize, String>)
    ensures
        match (r, number_value(text@, 10, usize::MAX as nat)) {
            (Ok(n), Some(v)) => n == v,
            (Err(e), None) => e@ == decimal_error(text@),
            _ => false,
        },
{
    match parse_number(text, 10, usize::MAX as u64) {
        Some(n) => Ok(n as usize),
        None => Err(decimal_failure(text)),
    }
}

// Endpoints.

/// Where the lock service is reached.
#[derive(Debug)]
pub struct HttpEndpoint {
    pub addr: String,
    pub host_header: String,
    pub path_prefix: String,
}

/// The contents of an endpoint.
#[verifier::ext_equal]
pub struct Endpoint {
    pub addr: Seq<char>,
    pub host_header: Seq<char>,
    pub path_prefix: Seq<char>,
}

impl View for HttpEndpoint {
    type V = Endpoint;

    open spec fn view(&self) -> Endpoint {
        Endpoint {
            addr: self.addr@,
            host_header: self.host_header@,
            path_prefix: self.path_prefix@,
        }
    }
}

/// A line break could smuggle in a header.
pub open spec fn has_line_break(s: Seq<char>) -> bool {
    has_char(s, '\r') || has_char(s, '\n')
}

/// The authority and the path of what follows the scheme.
pub open spec fn authority_and_path(rest: Seq<char>) -> (Seq<char>, Seq<char>) {
    match parted(rest, '/') {
        Some((authority, path)) => (authority, without_trailing("/"@ + path, '/')),
        None => (rest, Seq::empty()),
    }
}

/// What a base URL denotes. Port 80 is meant where the authority names none.
pub open spec fn endpoint_of(base_url: Seq<char>) -> Result<Endpoint, Seq<char>> {
    let url = without_trailing(trimmed(base_url), '/');
    if !begins_with(url, "http://"@) {
        Err("live-mutex URL must start with http://"@)
    } else {
        let (authority, path) = authority_and_path(url.skip("http://"@.len() as int));
        if authority.len() == 0 {
            Err("live-mutex URL is missing a host"@)
        } else if has_line_break(authority) || has_line_break(path) {
            Err("live-mutex URL must not contain CRLF characters"@)
        } else {
            Ok(
                Endpoint {
                    addr: if authority[0] == '[' || has_char(authority, ':') {
                        authority
                    } else {
                        authority + ":80"@
                    },
                    host_header: authority,
                    path_prefix: path,
                },
            )
        }
    }
}

fn contains_line_break(s: &str) -> (r: bool)
    ensures
        r == has_line_break(s@),
{
    contains_char(s, '\r') || contains_char(s, '\n')
}

/// Reads a base URL.
pub fn parse_http_endpoint(base_url: &str) -> (r: Result<HttpEndpoint, String>)
    ensures
        match (r, endpoint_of(base_url@)) {
            (Ok(a), Ok(b)) => a@ == b,
            (Err(e), Err(m)) => e@ == m,
            _ => false,
        },
{
    let url = trim_end_char(trim(base_url).as_str(), '/');
    if !starts_with(url.as_str(), "http://") {
        return Err("live-mutex URL must start with http://".to_owned());
    }
    proof {
        reveal_strlit("http://");
        reveal_strlit("/");
    }
    let chars = chars_of(url.as_str());
    let rest = text_between(&chars, 7, chars.len());
    assert(rest@ =~= url@.skip(7));
    let (authority, path_prefix) = match split_once(rest.as_str(), '/') {
        Some((authority, path)) => {
            let mut full = "/".to_owned();
            full.append(path.as_str());
            (authority, trim_end_char(full.as_str(), '/'))
        },
        None => (rest, String::new()),
    };
    assert((authority@, path_prefix@) == authority_and_path(url@.skip(7))) by {
        assert(path_prefix@.len() == 0 ==> path_prefix@ =~= Seq::empty());
    }
    if authority.as_str().is_empty() {
        return Err("live-mutex URL is missing a host".to_owned());
    }
    if contains_line_break(authority.as_str()) || contains_line_break(path_prefix.as_str()) {
        return Err("live-mutex URL must not contain CRLF characters".to_owned());
    }
    let first = authority.as_str().get_char(0);
    let addr = if first == '[' || contains_char(authority.as_str(), ':') {
        authority.clone()
    } else {
        let mut addr = authority.clone();
        addr.append(":80");
        addr
    };
    Ok(HttpEndpoint { addr, host_header: authority, path_prefix })
}

/// A path below a prefix.
pub fn http_path(prefix: &str, path: &str) -> (r: String)
    ensures
        r@ == prefix@ + path@,
{
    if prefix.is_empty() {
        assert(prefix@ + path@ =~= path@);
        path.to_owned()
    } else {
        let mut out = prefix.to_owned();
        out.append(path);
        out
    }
}

// Headers.

/// The value of a header line for a name, `None` where the line has another name
/// or none.
pub open spec fn header_in_line(line: Seq<char>, name: Seq<char>) -> Option<Seq<char>> {
    match parted(line, ':') {
        Some((key, value)) => if lowered(trimmed(key)) == lowered(name) {
            Some(trimmed(value))
        } else {
            None
        },
        None => None,
    }
}

/// The value of the first line of that name, the line at `i` or one after it.
pub open spec fn header_from(all: Seq<Seq<char>>, name: Seq<char>, i: int) -> Option<Seq<char>>
    decreases all.len() - i,
{
    if i >= all.len() {
        None
    } else {
        match header_in_line(all[i], name) {
            Some(v) => Some(v),
            None => header_from(all, name, i + 1),
        }
    }
}

/// The value of a header; the first line is the status line.
pub open spec fn header_of(headers: Seq<char>, name: Seq<char>) -> Option<Seq<char>> {
    header_from(lines_of(headers), name, 1)
}

/// The value of a header.
pub fn header_value(headers: &str, name: &str) -> (r: Option<String>)
    ensures
        text_view(r) == header_of(headers@, name@),
{
    let all = lines(headers);
    let ghost views = texts(all@);
    let mut i: usize = 1;
    while i < all.len()
        invariant
            1 <= i,
            views == texts(all@),
            views == lines_of(headers@),
            header_of(headers@, name@) == header_from(views, name@, i as int),
        decreases all@.len() - i,
    {
        assert(views[i as int] == all@[i as int]@);
        if let Some((key, value)) = split_once(all[i].as_str(), ':') {
            if same_ignoring_case(trim(key.as_str()).as_str(), name) {
                return Some(trim(value.as_str()));
            }
        }
        i = i + 1;
    }
    None
}

/// The length that the headers declare.
pub open spec fn declared_length(headers: Seq<char>) -> Result<Option<nat>, Seq<char>> {
    match header_of(headers, "content-length"@) {
        None => Ok(None),
        Some(value) => match number_value(value, 10, usize::MAX as nat) {
            Some(n) => Ok(Some(n)),
            None => Err(
                "invalid live-mutex content-length "@ + debug_form(value) + ": "@ + decimal_error(
                    value,
                ),
            ),
        },
    }
}

/// The length that the headers declare.
pub fn response_content_length(headers: &str) -> (r: Result<Option<usize>, String>)
    ensures
        match (r, declared_length(headers@)) {
            (Ok(None), Ok(None)) => true,
            (Ok(Some(n)), Ok(Some(v))) => n == v,
            (Err(e), Err(m)) => e@ == m,
            _ => false,
        },
{
    match header_value(headers, "content-length") {
        None => Ok(None),
        Some(value) => match parse_decimal(value.as_str()) {
            Ok(n) => Ok(Some(n)),
            Err(reason) => {
                let mut e = "invalid live-mutex content-length ".to_owned();
                e.append(debug_text(value.as_str()).as_str());
                e.append(": ");
                e.append(reason.as_str());
                Err(e)
            },
        },
    }
}

/// Whether a list of encodings, parted by commas, holds `chunked`.
pub open spec fn lists_chunked(value: Seq<char>) -> bool {
    exists|i: int|
        0 <= i < split_on(value, ',').len() && lowered(trimmed(#[trigger] split_on(value, ',')[i]))
            == lowered("chunked"@)
}

/// Whether the headers declare a chunked body.
pub open spec fn declared_chunked(headers: Seq<char>) -> bool {
    match header_of(headers, "transfer-encoding"@) {
        Some(value) => lists_chunked(value),
        None => false,
    }
}

/// Whether the headers declare a chunked body.
pub fn response_is_chunked(headers: &str) -> (r: bool)
    ensures
        r == declared_chunked(headers@),
{
    let value = match header_value(headers, "transfer-encoding") {
        None => {
            return false;
        },
        Some(value) => value,
    };
    let parts = split(value.as_str(), ',');
    let ghost views = texts(parts@);
    let mut i: usize = 0;
    while i < parts.len()
        invariant
            i <= parts@.len(),
            views == texts(parts@),
            views == split_on(value@, ','),
            header_of(headers@, "transfer-encoding"@) == Some(value@),
            forall|j: int|
                0 <= j < i ==> lowered(trimmed(#[trigger] views[j])) != lowered("chunked"@),
        decreases parts@.len() - i,
    {
        if same_ignoring_case(trim(parts[i].as_str()).as_str(), "chunked") {
            assert(lowered(trimmed(views[i as int])) == lowered("chunked"@));
            return true;
        }
        assert(views[i as int] == parts@[i as int]@);
        i = i + 1;
    }
    false
}

// Chunked bodies.

/// Whether a line break stands at a position.
pub open spec fn break_at(s: Seq<u8>, i: int) -> bool {
    0 <= i && i + 2 <= s.len() && s[i] == 13 && s[i + 1] == 10
}

/// The first line break at `i` or after it.
pub open spec fn break_from(s: Seq<u8>, i: int) -> Option<int>
    decreases s.len() - i,
{
    if i + 2 > s.len() {
        None
    } else if break_at(s, i) {
        Some(i)
    } else {
        break_from(s, i + 1)
    }
}

fn find_break(s: &[u8], from: usize) -> (r: Option<usize>)
    ensures
        match (r, break_from(s@, from as int)) {
            (Some(i), Some(k)) => i == k && from <= i && i + 2 <= s@.len(),
            (None, None) => true,
            _ => false,
        },
{
    let n: usize = s.len();
    if n < 2 || from > n - 2 {
        return None;
    }
    let mut i: usize = from;
    while i <= n - 2
        invariant
            from <= i <= n - 1,
            2 <= n == s@.len(),
            break_from(s@, from as int) == break_from(s@, i as int),
        decreases n - i,
    {
        if s[i] == 13 && s[i + 1] == 10 {
            return Some(i);
        }
        i = i + 1;
    }
    None
}

/// The size that a chunk header declares: a hexadecimal number before any
/// semicolon.
pub open spec fn chunk_size(line: Seq<u8>) -> Result<nat, Seq<char>> {
    if !valid_utf8(line) {
        Err("invalid chunk header utf8: "@ + utf8_error(line))
    } else {
        let text = decode_utf8(line);
        let digits = trimmed(
            match parted(text, ';') {
                Some((size, _)) => size,
                None => text,
            },
        );
        match number_value(digits, 16, usize::MAX as nat) {
            Some(n) => Ok(n),
            None => Err("invalid chunk size "@ + debug_form(text) + ": "@ + hex_error(digits)),
        }
    }
}

fn read_chunk_size(line: &[u8]) -> (r: Result<usize, String>)
    ensures
        match (r, chunk_size(line@)) {
            (Ok(n), Ok(v)) => n == v,
            (Err(e), Err(m)) => e@ == m,
            _ => false,
        },
{
    let text = match text_of_bytes(line) {
        Err(reason) => {
            let mut e = "invalid chunk header utf8: ".to_owned();
            e.append(reason.as_str());
            return Err(e);
        },
        Ok(text) => text,
    };
    let digits = match split_once(text.as_str(), ';') {
        Some((size, _)) => trim(size.as_str()),
        None => trim(text.as_str()),
    };
    match parse_hex(digits.as_str()) {
        Ok(n) => Ok(n),
        Err(reason) => {
            let mut e = "invalid chunk size ".to_owned();
            e.append(debug_text(text.as_str()).as_str());
            e.append(": ");
            e.append(reason.as_str());
            Err(e)
        },
    }
}

/// One step through a chunked body.
pub enum Chunk {
    /// The last chunk; what follows its header begins here.
    Last(int),
    /// The data from the first position up to the second.
    Data(int, int),
    Broken(Seq<char>),
}

/// The chunk whose header begins at `index`.
pub open spec fn chunk_at(body: Seq<u8>, index: int) -> Chunk {
    match break_from(body, index) {
        None => Chunk::Broken("chunked response missing chunk header terminator"@),
        Some(end) => match chunk_size(body.subrange(index, end)) {
            Err(e) => Chunk::Broken(e),
            Ok(size) => {
                let start = end + 2;
                if size == 0 {
                    Chunk::Last(start)
                } else if start + size + 2 > body.len() {
                    Chunk::Broken("chunked response ended before declared chunk size"@)
                } else if !break_at(body, (start + size) as int) {
                    Chunk::Broken("chunked response missing chunk data terminator"@)
                } else {
                    Chunk::Data(start, (start + size) as int)
                }
            },
        },
    }
}

proof fn breaks_lie_ahead(s: Seq<u8>, i: int)
    requires
        0 <= i,
    ensures
        break_from(s, i) matches Some(k) ==> i <= k && k + 2 <= s.len(),
    decreases s.len() - i,
{
    if i + 2 <= s.len() && !break_at(s, i) {
        breaks_lie_ahead(s, i + 1);
    }
}

proof fn chunks_lie_ahead(body: Seq<u8>, index: int)
    requires
        0 <= index,
    ensures
        match chunk_at(body, index) {
            Chunk::Last(start) => index < start <= body.len(),
            Chunk::Data(start, end) => index < start < end && end + 2 <= body.len(),
            Chunk::Broken(_) => true,
        },
{
    breaks_lie_ahead(body, index);
}

/// The data of the chunks from `index` on, or what is wrong with them.
pub open spec fn dechunked(body: Seq<u8>, index: int) -> Result<Seq<u8>, Seq<char>>
    decreases body.len() - index,
{
    match chunk_at(body, index) {
        Chunk::Broken(e) => Err(e),
        Chunk::Last(_) => Ok(Seq::empty()),
        Chunk::Data(start, end) => if 0 <= index < end && end + 2 <= body.len() {
            match dechunked(body, end + 2) {
                Err(e) => Err(e),
                Ok(rest) => Ok(body.subrange(start, end) + rest),
            }
        } else {
            Ok(Seq::empty())
        },
    }
}

/// Whether the chunks from `index` on are all there, and a line break behind the
/// last one.
pub open spec fn chunks_complete(body: Seq<u8>, index: int) -> bool
    decreases body.len() - index,
{
    match chunk_at(body, index) {
        Chunk::Broken(_) => false,
        Chunk::Last(start) => break_from(body, start) is Some,
        Chunk::Data(_, end) => 0 <= index < end && end + 2 <= body.len() && chunks_complete(
            body,
            end + 2,
        ),
    }
}

/// A step through a chunked body.
enum Step {
    Last(usize),
    Data(usize, usize),
    Broken(String),
}

fn read_chunk(body: &[u8], index: usize) -> (r: Step)
    requires
        index <= body@.len(),
    ensures
        match (r, chunk_at(body@, index as int)) {
            (Step::Last(a), Chunk::Last(b)) => a == b && index < a <= body@.len(),
            (Step::Data(a, b), Chunk::Data(x, y)) => a == x && b == y && index < a < b && b + 2
                <= body@.len(),
            (Step::Broken(e), Chunk::Broken(m)) => e@ == m,
            _ => false,
        },
{
    proof {
        chunks_lie_ahead(body@, index as int);
    }
    let n: usize = body.len();
    let end: usize = match find_break(body, index) {
        None => {
            return Step::Broken("chunked response missing chunk header terminator".to_owned());
        },
        Some(end) => end,
    };
    let line = vstd::slice::slice_subrange(body, index, end);
    let size: usize = match read_chunk_size(line) {
        Err(e) => {
            return Step::Broken(e);
        },
        Ok(size) => size,
    };
    let start: usize = end + 2;
    if size == 0 {
        return Step::Last(start);
    }
    if n - start < size || n - start - size < 2 {
        return Step::Broken("chunked response ended before declared chunk size".to_owned());
    }
    let stop: usize = start + size;
    if body[stop] != 13 || body[stop + 1] != 10 {
        return Step::Broken("chunked response missing chunk data terminator".to_owned());
    }
    Step::Data(start, stop)
}

/// Decodes a chunked body.
pub fn decode_chunked_body(body: &[u8]) -> (r: Result<Vec<u8>, String>)
    ensures
        match (r, dechunked(body@, 0)) {
            (Ok(v), Ok(s)) => v@ == s,
            (Err(e), Err(m)) => e@ == m,
            _ => false,
        },
{
    let total: usize = body.len();
    let mut decoded: Vec<u8> = Vec::new();
    let mut index: usize = 0;
    loop
        invariant
            total == body@.len(),
            index <= total,
            match (dechunked(body@, 0), dechunked(body@, index as int)) {
                (Ok(all), Ok(rest)) => all == decoded@ + rest,
                (Err(a), Err(b)) => a == b,
                _ => false,
            },
        decreases body@.len() - index,
    {
        match read_chunk(body, index) {
            Step::Broken(e) => {
                return Err(e);
            },
            Step::Last(_) => {
                assert(decoded@ + Seq::<u8>::empty() =~= decoded@);
                return Ok(decoded);
            },
            Step::Data(start, end) => {
                let ghost before = decoded@;
                let mut i: usize = start;
                while i < end
                    invariant
                        start <= i <= end,
                        end + 2 <= body@.len(),
                        decoded@ == before + body@.subrange(start as int, i as int),
                    decreases end - i,
                {
                    decoded.push(body[i]);
                    assert(body@.subrange(start as int, i + 1) =~= body@.subrange(
                        start as int,
                        i as int,
                    ).push(body@[i as int]));
                    i = i + 1;
                }
                proof {
                    if let Ok(rest) = dechunked(body@, end + 2) {
                        assert(before + (body@.subrange(start as int, end as int) + rest)
                            =~= decoded@ + rest);
                    }
                }
                index = end + 2;
            },
        }
    }
}

/// Whether a chunked body is all there.
pub fn chunked_body_complete(body: &[u8]) -> (r: bool)
    ensures
        r == chunks_complete(body@, 0),
{
    let total: usize = body.len();
    let mut index: usize = 0;
    loop
        invariant
            total == body@.len(),
            index <= total,
            chunks_complete(body@, 0) == chunks_complete(body@, index as int),
        decreases body@.len() - index,
    {
        match read_chunk(body, index) {
            Step::Broken(_) => {
                return false;
            },
            Step::Last(start) => {
                return find_break(body, start).is_some();
            },
            Step::Data(_, end) => {
                index = end + 2;
            },
        }
    }
}

/// A body that is all there can be decoded.
pub proof fn complete_bodies_decode(body: Seq<u8>, index: int)
    requires
        chunks_complete(body, index),
    ensures
        dechunked(body, index) is Ok,
    decreases body.len() - index,
{
    if let Chunk::Data(_, end) = chunk_at(body, index) {
        complete_bodies_decode(body, end + 2);
    }
}

/// Decoding never makes a body longer.
pub proof fn decoding_shortens(body: Seq<u8>, index: int)
    requires
        0 <= index <= body.len(),
    ensures
        dechunked(body, index) matches Ok(data) ==> data.len() <= body.len() - index,
    decreases body.len() - index,
{
    chunks_lie_ahead(body, index);
    if let Chunk::Data(_, end) = chunk_at(body, index) {
        decoding_shortens(body, end + 2);
    }
}

proof fn breaks_stay(s: Seq<u8>, more: Seq<u8>, i: int)
    requires
        0 <= i,
        break_from(s, i) is Some,
    ensures
        break_from(s + more, i) == break_from(s, i),
    decreases s.len() - i,
{
    if !break_at(s, i) {
        breaks_stay(s, more, i + 1);
    }
}

proof fn chunks_stay(body: Seq<u8>, more: Seq<u8>, index: int)
    requires
        0 <= index,
        !(chunk_at(body, index) is Broken),
    ensures
        chunk_at(body + more, index) == chunk_at(body, index),
{
    breaks_lie_ahead(body, index);
    breaks_stay(body, more, index);
    let end = break_from(body, index)->0;
    assert((body + more).subrange(index, end) =~= body.subrange(index, end));
}

/// A body that is all there stays so, with the same data, when more bytes follow.
pub proof fn complete_bodies_stay(body: Seq<u8>, more: Seq<u8>, index: int)
    requires
        0 <= index,
        chunks_complete(body, index),
    ensures
        chunks_complete(body + more, index),
        dechunked(body + more, index) == dechunked(body, index),
    decreases body.len() - index,
{
    chunks_lie_ahead(body, index);
    chunks_stay(body, more, index);
    match chunk_at(body, index) {
        Chunk::Last(start) => {
            breaks_stay(body, more, start);
        },
        Chunk::Data(start, end) => {
            complete_bodies_stay(body, more, end + 2);
            assert((body + more).subrange(start, end) =~= body.subrange(start, end));
        },
        Chunk::Broken(_) => {},
    }
}

// Chunked encoding.

/// A line break.
pub open spec fn line_break() -> Seq<u8> {
    seq![13, 10]
}

/// The characters of ASCII bytes.
pub open spec fn ascii(bytes: Seq<u8>) -> Seq<char> {
    bytes.map_values(|b: u8| b as char)
}

/// Whether bytes are hexadecimal digits that spell a number.
pub open spec fn spells(digits: Seq<u8>, n: nat) -> bool {
    digits.len() > 0 && digits_value(ascii(digits), 16) == Some(n)
}

/// The hexadecimal digit of a number below 16.
pub open spec fn hex_digit(n: nat) -> u8 {
    if n < 10 {
        (48 + n) as u8
    } else {
        (87 + n) as u8
    }
}

/// A number in hexadecimal digits.
pub open spec fn hex(n: nat) -> Seq<u8>
    decreases n,
{
    if n < 16 {
        seq![hex_digit(n)]
    } else {
        hex(n / 16).push(hex_digit(n % 16))
    }
}

/// The hexadecimal digits of a number spell it.
pub proof fn hex_spells(n: nat)
    ensures
        spells(hex(n), n),
    decreases n,
{
    let all = ascii(hex(n));
    if n < 16 {
        assert(all.drop_last() =~= Seq::empty());
        assert(digits_value(all.drop_last(), 16) == Some(0nat));
        assert(all.last() == hex_digit(n) as char);
    } else {
        hex_spells(n / 16);
        assert(all.drop_last() =~= ascii(hex(n / 16)));
        assert(all.last() == hex_digit(n % 16) as char);
        assert(n / 16 * 16 + n % 16 == n);
    }
}

/// Whether bytes may follow the size in a chunk header: none, or text behind a
/// semicolon, without a line break.
pub open spec fn is_extension(bytes: Seq<u8>) -> bool {
    &&& valid_utf8(bytes)
    &&& bytes.len() > 0 ==> bytes[0] == 59
    &&& forall|i: int| !break_at(bytes, i)
}

/// A chunk as it is written: the digits of its size, what follows them in the
/// header, and its data.
pub struct Piece {
    pub digits: Seq<u8>,
    pub extension: Seq<u8>,
    pub data: Seq<u8>,
}

/// Whether a chunk is written as it should be: it has data, and its header tells
/// how many.
pub open spec fn is_piece(p: Piece) -> bool {
    &&& 0 < p.data.len() <= usize::MAX
    &&& spells(p.digits, p.data.len())
    &&& is_extension(p.extension)
}

/// A chunk header.
pub open spec fn header(digits: Seq<u8>, extension: Seq<u8>) -> Seq<u8> {
    digits + extension + line_break()
}

/// Chunks as they are written, one after the other, and what follows them.
pub open spec fn chunked(pieces: Seq<Piece>, end: Seq<u8>) -> Seq<u8>
    decreases pieces.len(),
{
    if pieces.len() == 0 {
        end
    } else {
        let p = pieces[0];
        header(p.digits, p.extension) + p.data + line_break() + chunked(pieces.drop_first(), end)
    }
}

/// The data of chunks, one after the other.
pub open spec fn joined(pieces: Seq<Piece>) -> Seq<u8>
    decreases pieces.len(),
{
    if pieces.len() == 0 {
        Seq::empty()
    } else {
        pieces[0].data + joined(pieces.drop_first())
    }
}

proof fn digits_are_ascii(digits: Seq<u8>)
    requires
        digits_value(ascii(digits), 16) is Some,
    ensures
        forall|i: int|
            0 <= i < digits.len() ==> {
                &&& (#[trigger] digits[i]) < 128
                &&& digits[i] != 43
                &&& digits[i] != 59
                &&& digits[i] != 13
                &&& !is_space(digits[i] as char)
            },
    decreases digits.len(),
{
    if digits.len() > 0 {
        let all = ascii(digits);
        assert(all.drop_last() =~= ascii(digits.drop_last()));
        assert(all.last() == digits.last() as char);
        digits_are_ascii(digits.drop_last());
        assert forall|i: int| 0 <= i < digits.len() implies {
            &&& (#[trigger] digits[i]) < 128
            &&& digits[i] != 43
            &&& digits[i] != 59
            &&& digits[i] != 13
            &&& !is_space(digits[i] as char)
        } by {
            if i < digits.len() - 1 {
                assert(digits.drop_last()[i] == digits[i]);
            }
        }
    }
}

proof fn ascii_decodes(digits: Seq<u8>, rest: Seq<u8>)
    requires
        forall|i: int| 0 <= i < digits.len() ==> (#[trigger] digits[i]) < 128,
        valid_utf8(rest),
    ensures
        valid_utf8(digits + rest),
        decode_utf8(digits + rest) == ascii(digits) + decode_utf8(rest),
    decreases digits.len(),
{
    let all = digits + rest;
    if digits.len() == 0 {
        assert(all =~= rest);
        assert(ascii(digits) + decode_utf8(rest) =~= decode_utf8(rest));
    } else {
        let b = digits[0];
        let tail = digits.drop_first();
        assert forall|i: int| 0 <= i < tail.len() implies (#[trigger] tail[i]) < 128 by {
            assert(tail[i] == digits[i + 1]);
        }
        ascii_decodes(tail, rest);
        assert(all[0] == b);
        assert(b < 128 ==> b & 0x7f == b) by (bit_vector);
        assert(valid_first_scalar(all));
        assert(pop_first_scalar(all) =~= tail + rest);
        assert(decode_utf8(all) == seq![b as char] + decode_utf8(tail + rest));
        assert(ascii(digits) =~= seq![b as char] + ascii(tail));
        assert(seq![b as char] + (ascii(tail) + decode_utf8(rest)) =~= ascii(digits) + decode_utf8(
            rest,
        ));
    }
}

proof fn first_semicolon(s: Seq<char>, i: int, k: int)
    requires
        0 <= i <= k <= s.len(),
        k < s.len() ==> s[k] == ';',
        forall|j: int| i <= j < k ==> #[trigger] s[j] != ';',
    ensures
        char_from(s, ';', i) == if k < s.len() {
            Some(k)
        } else {
            None
        },
    decreases k - i,
{
    if i < k {
        assert(s[i] != ';');
        first_semicolon(s, i + 1, k);
    }
}

proof fn headers_tell_sizes(digits: Seq<u8>, extension: Seq<u8>, n: nat)
    requires
        spells(digits, n),
        n <= usize::MAX,
        is_extension(extension),
    ensures
        chunk_size(digits + extension) == Ok::<nat, Seq<char>>(n),
{
    let size = ascii(digits);
    let after = decode_utf8(extension);
    let text = size + after;
    digits_are_ascii(digits);
    ascii_decodes(digits, extension);
    if extension.len() > 0 {
        assert(59u8 & 0x7f == 59u8) by (bit_vector);
        assert(after[0] == ';');
    }
    assert forall|j: int| 0 <= j < size.len() implies #[trigger] text[j] != ';' by {
        assert(text[j] == digits[j] as char);
    }
    first_semicolon(text, 0, size.len() as int);
    assert(text.take(size.len() as int) =~= size);
    assert(extension.len() == 0 ==> text =~= size);
    assert(size[0] == digits[0] as char);
    assert(size.last() == digits[digits.len() - 1] as char);
    assert(trimmed(size) == size);
}

proof fn first_break(s: Seq<u8>, i: int, k: int)
    requires
        0 <= i <= k,
        break_at(s, k),
        forall|j: int| i <= j < k ==> !#[trigger] break_at(s, j),
    ensures
        break_from(s, i) == Some(k),
    decreases k - i,
{
    if i < k {
        assert(!break_at(s, i));
        first_break(s, i + 1, k);
    }
}

proof fn headers_are_found(
    before: Seq<u8>,
    digits: Seq<u8>,
    extension: Seq<u8>,
    n: nat,
    after: Seq<u8>,
)
    requires
        spells(digits, n),
        n <= usize::MAX,
        is_extension(extension),
    ensures
        ({
            let body = before + (header(digits, extension) + after);
            let end = before.len() + digits.len() + extension.len();
            &&& break_from(body, before.len() as int) == Some(end as int)
            &&& chunk_size(body.subrange(before.len() as int, end as int)) == Ok::<nat, Seq<char>>(n)
        }),
{
    let body = before + (header(digits, extension) + after);
    let line = digits + extension;
    let at = before.len() as int;
    let end = at + line.len();
    digits_are_ascii(digits);
    headers_tell_sizes(digits, extension, n);
    assert(body.subrange(at, end) =~= line);
    assert(body[end] == 13 && body[end + 1] == 10);
    assert forall|j: int| at <= j < end implies !#[trigger] break_at(body, j) by {
        let k = j - at;
        assert(body[j] == line[k]);
        if k < digits.len() {
            assert(line[k] == digits[k]);
        } else {
            let e = k - digits.len();
            assert(line[k] == extension[e]);
            assert(!break_at(extension, e));
            if e + 1 < extension.len() {
                assert(body[j + 1] == extension[e + 1]);
            } else {
                assert(j + 1 == end);
            }
        }
    }
    first_break(body, at, end);
}

proof fn chunks_are_read(
    before: Seq<u8>,
    pieces: Seq<Piece>,
    zero: Seq<u8>,
    extension: Seq<u8>,
    after: Seq<u8>,
)
    requires
        forall|i: int| 0 <= i < pieces.len() ==> is_piece(#[trigger] pieces[i]),
        spells(zero, 0),
        is_extension(extension),
    ensures
        ({
            let body = before + chunked(pieces, header(zero, extension) + after);
            &&& dechunked(body, before.len() as int) == Ok::<Seq<u8>, Seq<char>>(joined(pieces))
            &&& (exists|k: int| break_at(after, k)) ==> chunks_complete(body, before.len() as int)
        }),
    decreases pieces.len(),
{
    let end = header(zero, extension) + after;
    let body = before + chunked(pieces, end);
    let at = before.len() as int;
    if pieces.len() == 0 {
        headers_are_found(before, zero, extension, 0, after);
        if exists|k: int| break_at(after, k) {
            let k = choose|k: int| break_at(after, k);
            let start = at + header(zero, extension).len();
            assert(body[start + k] == after[k] && body[start + k + 1] == after[k + 1]);
            some_break(body, start, start + k);
        }
    } else {
        let p = pieces[0];
        let rest = pieces.drop_first();
        let others = chunked(rest, end);
        let head = header(p.digits, p.extension);
        assert(is_piece(p));
        assert(head + p.data + line_break() + others =~= head + (p.data + line_break() + others));
        headers_are_found(
            before,
            p.digits,
            p.extension,
            p.data.len(),
            p.data + line_break() + others,
        );
        let start = at + head.len();
        let stop = start + p.data.len();
        assert(body[stop] == 13 && body[stop + 1] == 10);
        assert(chunk_at(body, at) == Chunk::Data(start, stop));
        assert(body.subrange(start, stop) =~= p.data);
        assert forall|i: int| 0 <= i < rest.len() implies is_piece(#[trigger] rest[i]) by {
            assert(is_piece(pieces[i + 1]));
        }
        let next = before + head + p.data + line_break();
        chunks_are_read(next, rest, zero, extension, after);
        assert(next + others =~= body);
        assert(next.len() == stop + 2);
    }
}

proof fn some_break(s: Seq<u8>, i: int, k: int)
    requires
        0 <= i <= k,
        break_at(s, k),
    ensures
        break_from(s, i) is Some,
    decreases k - i,
{
    if i < k && !break_at(s, i) {
        some_break(s, i + 1, k);
    }
}

/// Decoding undoes chunked encoding: the data of the chunks comes back byte for
/// byte, whatever it holds, whatever follows the sizes in the headers, and whatever
/// follows the header of the chunk of size zero. With a line break somewhere behind
/// that header, the body is all there.
pub proof fn decoding_undoes_chunking(
    pieces: Seq<Piece>,
    zero: Seq<u8>,
    extension: Seq<u8>,
    after: Seq<u8>,
)
    requires
        forall|i: int| 0 <= i < pieces.len() ==> is_piece(#[trigger] pieces[i]),
        spells(zero, 0),
        is_extension(extension),
    ensures
        ({
            let body = chunked(pieces, header(zero, extension) + after);
            &&& dechunked(body, 0) == Ok::<Seq<u8>, Seq<char>>(joined(pieces))
            &&& (exists|k: int| break_at(after, k)) ==> chunks_complete(body, 0)
        }),
{
    let body = chunked(pieces, header(zero, extension) + after);
    chunks_are_read(Seq::empty(), pieces, zero, extension, after);
    assert(Seq::<u8>::empty() + body =~= body);
}

/// Whether a text stands as it is under trimming and holds no slash or line break.
pub open spec fn plain_host(s: Seq<char>) -> bool {
    &&& s.len() > 0
    &&& trimmed("http://"@ + s) == "http://"@ + s
    &&& !has_char(s, '/')
    &&& !has_line_break(s)
}

/// A URL without a path is that of its host, on the port that it names, and on port 80
/// where it names none; its requests go to no prefix.
pub proof fn hosts_are_endpoints(host: Seq<char>)
    requires
        plain_host(host),
    ensures
        endpoint_of("http://"@ + host) is Ok,
        endpoint_of("http://"@ + host)->Ok_0.host_header == host,
        endpoint_of("http://"@ + host)->Ok_0.path_prefix == Seq::<char>::empty(),
        has_char(host, ':') ==> endpoint_of("http://"@ + host)->Ok_0.addr == host,
        !has_char(host, ':') && host[0] != '[' ==> endpoint_of("http://"@ + host)->Ok_0.addr == host
            + ":80"@,
{
    reveal_strlit("http://");
    let url = "http://"@ + host;
    assert(host[host.len() - 1] != '/');
    assert(url.last() == host.last());
    assert(without_trailing(url, '/') == url);
    assert(url.take(7) =~= "http://"@);
    assert(url.skip(7) =~= host);
    parting_is_undone(host, '/');
}

/// What is no plain HTTP address is refused.
pub proof fn other_addresses_are_refused(base_url: Seq<char>)
    ensures
        !begins_with(trimmed(base_url), "http://"@) ==> endpoint_of(base_url) is Err,
        endpoint_of(base_url) matches Ok(e) ==> e.host_header.len() > 0 && !has_line_break(
            e.host_header,
        ) && !has_line_break(e.path_prefix) && e.host_header.is_prefix_of(e.addr),
{
    let url = without_trailing(trimmed(base_url), '/');
    trailing_characters_are_cut(trimmed(base_url), '/');
    let all = trimmed(base_url);
    reveal_strlit("http://");
    if begins_with(url, "http://"@) {
        assert(all.take(7) =~= url.take(7));
    }
    if endpoint_of(base_url) is Ok {
        let e = endpoint_of(base_url)->Ok_0;
        assert(e.host_header =~= e.addr.subrange(0, e.host_header.len() as int));
    }
}

/// A header is found in the first line that names it, in any case, and its value is what
/// stands behind the colon, without the space around it; the first line of all is no
/// header.
pub proof fn headers_are_found_by_name(headers: Seq<char>, name: Seq<char>)
    ensures
        ({
            let all = lines_of(headers);
            match header_of(headers, name) {
                Some(v) => exists|i: int|
                    1 <= i < all.len() && header_in_line(#[trigger] all[i], name) == Some(v)
                        && forall|j: int|
                        1 <= j < i ==> header_in_line(#[trigger] all[j], name) is None,
                None => forall|j: int|
                    1 <= j < all.len() ==> header_in_line(#[trigger] all[j], name) is None,
            }
        }),
        header_of(headers, name) == header_of(headers, lowered(name)),
{
    first_headers_are_found(lines_of(headers), name, 1);
    lowered_names_agree(lines_of(headers), name, 1);
}

proof fn lowered_names_agree(all: Seq<Seq<char>>, name: Seq<char>, i: int)
    requires
        0 <= i,
    ensures
        header_from(all, name, i) == header_from(all, lowered(name), i),
    decreases all.len() - i,
{
    assert(lowered(lowered(name)) =~= lowered(name));
    if i < all.len() {
        lowered_names_agree(all, name, i + 1);
    }
}

proof fn first_headers_are_found(all: Seq<Seq<char>>, name: Seq<char>, i: int)
    requires
        0 <= i,
    ensures
        match header_from(all, name, i) {
            Some(v) => exists|k: int|
                i <= k < all.len() && header_in_line(#[trigger] all[k], name) == Some(v) && forall|
                    j: int,
                |
                    i <= j < k ==> header_in_line(#[trigger] all[j], name) is None,
            None => forall|j: int|
                i <= j < all.len() ==> header_in_line(#[trigger] all[j], name) is None,
        },
    decreases all.len() - i,
{
    if i < all.len() && header_in_line(all[i], name) is None {
        first_headers_are_found(all, name, i + 1);
    }
}

/// A header line is a name, a colon and a value, with space around each.
pub proof fn header_lines_have_values(key: Seq<char>, value: Seq<char>, name: Seq<char>)
    requires
        !has_char(key, ':'),
    ensures
        header_in_line(key + seq![':'] + value, name) == if lowered(trimmed(key)) == lowered(name) {
            Some(trimmed(value))
        } else {
            None
        },
{
    let line = key + seq![':'] + value;
    parting_is_undone(line, ':');
    assert(line[key.len() as int] == ':');
    let (before, after) = parted(line, ':')->0;
    let n = before.len() as int;
    if n < key.len() {
        assert(line[n] == (before + seq![':'] + after)[n]);
        assert(key[n] == ':');
    } else if n > key.len() {
        assert(before[key.len() as int] == (before + seq![':'] + after)[key.len() as int]);
    }
    assert(before =~= key) by {
        assert(before.len() == key.len());
        assert forall|k: int| 0 <= k < key.len() implies before[k] == key[k] by {
            assert(line[k] == (before + seq![':'] + after)[k]);
        }
    }
    assert(after =~= value) by {
        assert((before + seq![':'] + after).len() == line.len());
        assert forall|k: int| 0 <= k < value.len() implies after[k] == value[k] by {
            assert(line[n + 1 + k] == (before + seq![':'] + after)[n + 1 + k]);
        }
    }
}

/// A line break is found at the first place where the two bytes stand.
pub proof fn breaks_are_found(s: Seq<u8>, i: int)
    requires
        0 <= i,
    ensures
        match break_from(s, i) {
            Some(k) => i <= k && k + 2 <= s.len() && s[k] == 13 && s[k + 1] == 10 && forall|j: int|
                i <= j < k ==> !#[trigger] break_at(s, j),
            None => forall|j: int| i <= j ==> !#[trigger] break_at(s, j),
        },
    decreases s.len() - i,
{
    if i + 2 <= s.len() && !break_at(s, i) {
        breaks_are_found(s, i + 1);
    }
}

/// The codings of a transfer are listed with commas between them, in any case and with
/// space around each; a transfer is chunked where one of them says so.
pub proof fn codings_are_listed(a: Seq<char>, b: Seq<char>)
    ensures
        !has_char(a, ',') ==> (lists_chunked(a) <==> lowered(trimmed(a)) == "chunked"@),
        lists_chunked(a + seq![','] + b) <==> lists_chunked(a) || lists_chunked(b),
{
    reveal_strlit("chunked");
    assert(lowered("chunked"@) =~= "chunked"@);
    parts_stand_side_by_side(a, b, ',');
    let (left, right) = (split_on(a, ','), split_on(b, ','));
    let all = split_on(a + seq![','] + b, ',');
    assert(all == left + right);
    if !has_char(a, ',') {
        assert(left[0] == a);
    }
    if lists_chunked(a) {
        let i = choose|i: int|
            0 <= i < left.len() && lowered(trimmed(#[trigger] split_on(a, ',')[i])) == lowered(
                "chunked"@,
            );
        assert(all[i] == left[i]);
    }
    if lists_chunked(b) {
        let i = choose|i: int|
            0 <= i < right.len() && lowered(trimmed(#[trigger] split_on(b, ',')[i])) == lowered(
                "chunked"@,
            );
        assert(all[left.len() + i] == right[i]);
    }
    if lists_chunked(a + seq![','] + b) {
        let i = choose|i: int|
            0 <= i < all.len() && lowered(
                trimmed(#[trigger] split_on(a + seq![','] + b, ',')[i]),
            ) == lowered("chunked"@);
        if i < left.len() {
            assert(split_on(a, ',')[i] == all[i]);
        } else {
            assert(split_on(b, ',')[i - left.len()] == all[i]);
        }
    }
}

/// The length that is declared is the number in the header of that name; none is declared
/// without the header, and what is no number is refused.
pub proof fn lengths_are_declared(headers: Seq<char>)
    ensures
        header_of(headers, "content-length"@) is None ==> declared_length(headers) == Ok::<
            Option<nat>,
            Seq<char>,
        >(None),
        header_of(headers, "content-length"@) matches Some(value) ==> {
            &&& declared_length(headers) is Ok <==> number_value(value, 10, usize::MAX as nat)
                is Some
            &&& declared_length(headers) matches Ok(n) ==> n == number_value(
                value,
                10,
                usize::MAX as nat,
            )
        },
        declared_chunked(headers) <==> (header_of(headers, "transfer-encoding"@) matches Some(
            value,
        ) && lists_chunked(value)),
{
}

}
