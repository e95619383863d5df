//! The little HTTP the loopback media server speaks: request lines, the
//! headers it acts on, byte ranges, and what to answer.
//!
//! Only the decisions live here. Reading lines off the socket and writing
//! the reply back stay with the caller, which hands each line in and acts on
//! what comes back.

use vstd::prelude::*;

use crate::scan::{
    decimal, decimal_string, find_in_window, first_index_of, first_word, after_first_word, parse_u64_window, parsed_u64,
    same_ignoring_ascii_case, skip_white_space, trim_window, trimmed, white_space_in_window,
    window_eq_ignore_ascii_case, window_string,
};
use crate::text::chars_of;

verus! {

/// Refuse absurd requests rather than growing a buffer for them.
pub const MAX_REQUEST_BYTES: usize = 16384;

/// How much of a file to move per write: large enough that a 4K frame is a
/// couple of writes, small enough that a seek abandons little work.
pub const CHUNK: usize = 262144;

/// The unit a `Range` header has to name.
pub open spec fn range_unit() -> Seq<char> {
    seq!['b', 'y', 't', 'e', 's', '=']
}

/// The one method that asks for headers without a body.
pub open spec fn head_method() -> Seq<char> {
    seq!['H', 'E', 'A', 'D']
}

/// The header name the server acts on, in any case.
pub open spec fn range_header() -> Seq<char> {
    seq!['r', 'a', 'n', 'g', 'e']
}

/// A `Range` value: `bytes=start-` or `bytes=start-end`, each number
/// allowed whitespace around it. Multi-range and suffix ranges are refused.
pub open spec fn parsed_range(value: Seq<char>) -> Option<(u64, Option<u64>)> {
    let text = trimmed(value);
    if text.len() >= 6 && text.take(6) == range_unit() {
        let span = text.skip(6);
        let dash = first_index_of(span, '-');
        if dash < span.len() {
            let end = trimmed(span.skip(dash + 1));
            match parsed_u64(trimmed(span.take(dash))) {
                Some(start) => if end.len() == 0 {
                    Some((start, None))
                } else {
                    match parsed_u64(end) {
                        Some(last) => Some((start, Some(last))),
                        None => None,
                    }
                },
                None => None,
            }
        } else {
            None
        }
    } else {
        None
    }
}

/// The value of header `line` when its name is `name`, in any ASCII case:
/// what follows the first colon, trimmed.
pub open spec fn header_value(line: Seq<char>, name: Seq<char>) -> Option<Seq<char>> {
    let colon = first_index_of(line, ':');
    if colon < line.len() && same_ignoring_ascii_case(trimmed(line.take(colon)), name) {
        Some(trimmed(line.skip(colon + 1)))
    } else {
        None
    }
}

/// Whether `line` ends the header section: the end of the stream, a blank
/// line, or a request that has grown past [`MAX_REQUEST_BYTES`].
pub open spec fn ends_headers(line: Seq<char>, read: usize, total: usize) -> bool {
    ||| read == 0
    ||| line == seq!['\r', '\n']
    ||| line == seq!['\n']
    ||| total > MAX_REQUEST_BYTES
}

/// One request, reduced to the three things the server acts on.
pub struct Request {
    /// The request target, exactly as sent.
    pub target: String,
    /// The byte range asked for, when the request named one.
    pub range: Option<(u64, Option<u64>)>,
    /// True for `HEAD`: answer with headers only.
    pub head_only: bool,
}

/// What to answer a request for a file of some length.
#[derive(PartialEq, Eq, Structural, Debug, Clone, Copy)]
pub enum Reply {
    /// 416: the range starts at or past the end of the file.
    Unsatisfiable,
    /// 200: the whole file, `count` bytes of it.
    Whole { count: u64 },
    /// 206: the bytes `start..=last`, `count` of them.
    Partial { start: u64, last: u64, count: u64 },
}

/// The answer for a file of `length` bytes: the range clipped to the file,
/// the whole file when no range was asked for.
pub open spec fn reply_for(range: Option<(u64, Option<u64>)>, length: u64) -> Reply {
    match range {
        Some((start, end)) => if start >= length {
            Reply::Unsatisfiable
        } else {
            let last = match end {
                Some(end) => if end < length - 1 {
                    end
                } else {
                    (length - 1) as u64
                },
                None => (length - 1) as u64,
            };
            Reply::Partial { start, last, count: (last + 1 - start) as u64 }
        },
        None => Reply::Whole { count: length },
    }
}

/// `bytes=start-` or `bytes=start-end`. Multi-range is not supported and
/// not needed: media elements ask for one span at a time.
pub fn parse_range(value: &str) -> (range: Option<(u64, Option<u64>)>)
    ensures
        range == parsed_range(value@),
{
    let chars = chars_of(value);
    let (low, high) = trim_window(&chars, 0, chars.len());
    let ghost text = chars@.subrange(low as int, high as int);
    assert(chars@.subrange(0, chars@.len() as int) =~= chars@);
    if high - low < 6 || chars[low] != 'b' || chars[low + 1] != 'y' || chars[low + 2] != 't'
        || chars[low + 3] != 'e' || chars[low + 4] != 's' || chars[low + 5] != '=' {
        assert(text.len() < 6 || text.take(6)[0] != 'b' || text.take(6)[1] != 'y' || text.take(
            6,
        )[2] != 't' || text.take(6)[3] != 'e' || text.take(6)[4] != 's' || text.take(6)[5]
            != '=');
        return None;
    }
    assert(text.take(6) =~= range_unit());
    let span_from = low + 6;
    let ghost span = text.skip(6);
    assert(span =~= chars@.subrange(span_from as int, high as int));
    let dash = find_in_window(&chars, span_from, high, '-');
    if dash == high {
        return None;
    }
    assert(span.take(dash - span_from) =~= chars@.subrange(span_from as int, dash as int));
    assert(span.skip(dash - span_from + 1) =~= chars@.subrange(dash + 1, high as int));
    let (start_low, start_high) = trim_window(&chars, span_from, dash);
    let start = match parse_u64_window(&chars, start_low, start_high) {
        Some(start) => start,
        None => return None,
    };
    let (end_low, end_high) = trim_window(&chars, dash + 1, high);
    if end_low == end_high {
        return Some((start, None));
    }
    match parse_u64_window(&chars, end_low, end_high) {
        Some(last) => Some((start, Some(last))),
        None => None,
    }
}

/// The value of header `line` when the header is called `name`, ignoring
/// ASCII case; `None` for any other header, or a line with no colon.
pub fn header(line: &str, name: &str) -> (value: Option<String>)
    ensures
        value is Some <==> header_value(line@, name@) is Some,
        value matches Some(text) ==> text@ == header_value(line@, name@)->0,
{
    let chars = chars_of(line);
    let wanted = chars_of(name);
    let colon = find_in_window(&chars, 0, chars.len(), ':');
    assert(chars@.subrange(0, chars@.len() as int) =~= chars@);
    if colon == chars.len() {
        return None;
    }
    assert(chars@.take(colon as int) =~= chars@.subrange(0, colon as int));
    assert(chars@.skip(colon + 1) =~= chars@.subrange(colon + 1, chars@.len() as int));
    let (key_low, key_high) = trim_window(&chars, 0, colon);
    if !window_eq_ignore_ascii_case(&chars, key_low, key_high, &wanted) {
        return None;
    }
    let (value_low, value_high) = trim_window(&chars, colon + 1, chars.len());
    Some(window_string(&chars, value_low, value_high))
}

/// Starts a request from its first line: the method decides `head_only`,
/// the second word is the target. Missing words read as empty.
pub fn request_from_line(line: &str) -> (request: Request)
    ensures
        request.target@ == first_word(after_first_word(line@)),
        request.range is None,
        request.head_only == same_ignoring_ascii_case(first_word(line@), head_method()),
{
    let chars = chars_of(line);
    let length = chars.len();
    assert(chars@.subrange(0, length as int) =~= chars@);
    let method_from = skip_white_space(&chars, 0, length);
    let method_to = white_space_in_window(&chars, method_from, length);
    let ghost rest = chars@.subrange(method_from as int, length as int);
    assert(rest.take(method_to - method_from) =~= chars@.subrange(
        method_from as int,
        method_to as int,
    ));
    assert(rest.skip(method_to - method_from) =~= chars@.subrange(method_to as int, length as int));
    let target_from = skip_white_space(&chars, method_to, length);
    let target_to = white_space_in_window(&chars, target_from, length);
    let ghost after = chars@.subrange(target_from as int, length as int);
    assert(after.take(target_to - target_from) =~= chars@.subrange(
        target_from as int,
        target_to as int,
    ));
    let head = chars_of_head();
    let head_only = window_eq_ignore_ascii_case(&chars, method_from, method_to, &head);
    Request { target: window_string(&chars, target_from, target_to), range: None, head_only }
}

fn chars_of_head() -> (head: Vec<char>)
    ensures
        head@ == head_method(),
{
    let mut head = Vec::new();
    head.push('H');
    head.push('E');
    head.push('A');
    head.push('D');
    assert(head@ =~= head_method());
    head
}

fn chars_of_range() -> (name: Vec<char>)
    ensures
        name@ == range_header(),
{
    let mut name = Vec::new();
    name.push('r');
    name.push('a');
    name.push('n');
    name.push('g');
    name.push('e');
    assert(name@ =~= range_header());
    name
}

/// Takes in one header line, `read` bytes long, with `total` bytes of the
/// request read so far including it. Returns whether to keep reading: false
/// once the headers have ended, and then nothing changes. A `Range` header
/// replaces whatever range an earlier one set, a malformed one with none.
pub fn read_header_line(request: &mut Request, line: &str, read: usize, total: usize) -> (more:
    bool)
    ensures
        more == !ends_headers(line@, read, total),
        final(request).target == old(request).target,
        final(request).head_only == old(request).head_only,
        final(request).range == if more && header_value(line@, range_header()) is Some {
            parsed_range(header_value(line@, range_header())->0)
        } else {
            old(request).range
        },
{
    let chars = chars_of(line);
    let blank = (chars.len() == 2 && chars[0] == '\r' && chars[1] == '\n') || (chars.len() == 1
        && chars[0] == '\n');
    assert(blank == (line@ == seq!['\r', '\n'] || line@ == seq!['\n'])) by {
        if chars@.len() == 2 && chars@[0] == '\r' && chars@[1] == '\n' {
            assert(chars@ =~= seq!['\r', '\n']);
        }
        if chars@.len() == 1 && chars@[0] == '\n' {
            assert(chars@ =~= seq!['\n']);
        }
    }
    if read == 0 || blank || total > MAX_REQUEST_BYTES {
        return false;
    }
    let name = chars_of_range();
    let colon = find_in_window(&chars, 0, chars.len(), ':');
    assert(chars@.subrange(0, chars@.len() as int) =~= chars@);
    if colon < chars.len() {
        assert(chars@.take(colon as int) =~= chars@.subrange(0, colon as int));
        assert(chars@.skip(colon + 1) =~= chars@.subrange(colon + 1, chars@.len() as int));
        let (key_low, key_high) = trim_window(&chars, 0, colon);
        if window_eq_ignore_ascii_case(&chars, key_low, key_high, &name) {
            let (value_low, value_high) = trim_window(&chars, colon + 1, chars.len());
            let value = window_string(&chars, value_low, value_high);
            request.range = parse_range(value.as_str());
        }
    }
    true
}

/// How many bytes the next read asks for, with `left` still to send: a
/// whole chunk, or what is left when that is less.
pub fn chunk_size(left: u64) -> (want: usize)
    ensures
        want == if left < CHUNK as u64 {
            left as usize
        } else {
            CHUNK
        },
{
    if left < CHUNK as u64 {
        left as usize
    } else {
        CHUNK
    }
}

/// What to answer for a file of `length` bytes. A range whose end comes more
/// than one byte before its start is not accepted: its byte count would be
/// negative.
pub fn plan_reply(range: Option<(u64, Option<u64>)>, length: u64) -> (reply: Reply)
    requires
        match range {
            Some((start, Some(end))) => start < length ==> start <= end + 1,
            _ => true,
        },
    ensures
        reply == reply_for(range, length),
{
    match range {
        Some((start, end)) => {
            if start >= length {
                return Reply::Unsatisfiable;
            }
            let last = match end {
                Some(end) => if end < length - 1 {
                    end
                } else {
                    length - 1
                },
                None => length - 1,
            };
            Reply::Partial { start, last, count: last + 1 - start }
        },
        None => Reply::Whole { count: length },
    }
}

/// A reply never names a byte past the end of the file: a partial reply
/// starts inside it, ends at or before its last byte, and counts exactly the
/// bytes between.
pub proof fn lemma_reply_stays_inside_the_file(range: Option<(u64, Option<u64>)>, length: u64)
    requires
        match range {
            Some((start, Some(end))) => start < length ==> start <= end + 1,
            _ => true,
        },
    ensures
        match reply_for(range, length) {
            Reply::Partial { start, last, count } => {
                &&& start < length
                &&& last < length
                &&& count == last + 1 - start
                &&& count <= length - start
            },
            Reply::Whole { count } => count == length && range is None,
            Reply::Unsatisfiable => range matches Some((start, _)) && start >= length,
        },
{
}

/// The status line and headers for a reply, up to and including the blank
/// line that ends them.
pub open spec fn reply_head(reply: Reply, mime: Seq<char>, length: u64) -> Seq<char> {
    match reply {
        Reply::Unsatisfiable => "HTTP/1.1 416 Range Not Satisfiable\r\nContent-Range: bytes */"@
            + decimal(length as nat) + "\r\nContent-Length: 0\r\nConnection: close\r\n\r\n"@,
        Reply::Whole { count } => "HTTP/1.1 200 OK\r\nContent-Type: "@ + mime
            + "\r\nContent-Length: "@ + decimal(count as nat)
            + "\r\nAccept-Ranges: bytes\r\nCache-Control: no-store\r\nConnection: close\r\n\r\n"@,
        Reply::Partial { start, last, count } => "HTTP/1.1 206 Partial Content\r\nContent-Type: "@
            + mime + "\r\nContent-Length: "@ + decimal(count as nat)
            + "\r\nAccept-Ranges: bytes\r\nCache-Control: no-store\r\nConnection: close\r\nContent-Range: bytes "@
            + decimal(start as nat) + "-"@ + decimal(last as nat) + "/"@ + decimal(length as nat)
            + "\r\n\r\n"@,
    }
}

/// The headers that refuse a request: any target that does not resolve
/// gets this same empty 404.
pub open spec fn not_found_head() -> Seq<char> {
    "HTTP/1.1 404 Not Found\r\nContent-Length: 0\r\nConnection: close\r\n\r\n"@
}

/// Writes the head of a reply for a file of `length` bytes labelled `mime`.
/// A 416 names the file's length; a 206 says which bytes follow.
pub fn write_reply_head(reply: Reply, mime: &str, length: u64) -> (head: String)
    ensures
        head@ == reply_head(reply, mime@, length),
{
    match reply {
        Reply::Unsatisfiable => {
            let mut head = String::from_str("HTTP/1.1 416 Range Not Satisfiable\r\nContent-Range: bytes */");
            head.append(decimal_string(length).as_str());
            head.append("\r\nContent-Length: 0\r\nConnection: close\r\n\r\n");
            head
        },
        Reply::Whole { count } => {
            let mut head = String::from_str("HTTP/1.1 200 OK\r\nContent-Type: ");
            head.append(mime);
            head.append("\r\nContent-Length: ");
            head.append(decimal_string(count).as_str());
            head.append(
                "\r\nAccept-Ranges: bytes\r\nCache-Control: no-store\r\nConnection: close\r\n\r\n",
            );
            head
        },
        Reply::Partial { start, last, count } => {
            let mut head = String::from_str("HTTP/1.1 206 Partial Content\r\nContent-Type: ");
            head.append(mime);
            head.append("\r\nContent-Length: ");
            head.append(decimal_string(count).as_str());
            head.append(
                "\r\nAccept-Ranges: bytes\r\nCache-Control: no-store\r\nConnection: close\r\nContent-Range: bytes ",
            );
            head.append(decimal_string(start).as_str());
            head.append("-");
            head.append(decimal_string(last).as_str());
            head.append("/");
            head.append(decimal_string(length).as_str());
            head.append("\r\n\r\n");
            head
        },
    }
}

/// The head of the one refusal the server gives.
pub fn write_not_found_head() -> (head: String)
    ensures
        head@ == not_found_head(),
{
    String::from_str("HTTP/1.1 404 Not Found\r\nContent-Length: 0\r\nConnection: close\r\n\r\n")
}

/// A range request is answered with exactly the bytes it names, clipped to
/// the file: a range that starts inside the file gets a 206 from its start;
/// an end inside the file is the last byte sent, an end past it or no end
/// at all sends to the file's last byte; the count is the bytes between. A
/// range that starts at or past the end is refused.
pub proof fn lemma_range_reply_names_the_asked_bytes(start: u64, end: Option<u64>, length: u64)
    requires
        end matches Some(end) ==> start <= end + 1,
    ensures
        start >= length ==> reply_for(Some((start, end)), length) == Reply::Unsatisfiable,
        start < length ==> ({
            &&& reply_for(Some((start, end)), length) is Partial
            &&& reply_for(Some((start, end)), length)->Partial_start == start
            &&& reply_for(Some((start, end)), length)->Partial_last == match end {
                Some(end) => if end < length {
                    end
                } else {
                    (length - 1) as u64
                },
                None => (length - 1) as u64,
            }
            &&& reply_for(Some((start, end)), length)->Partial_count == reply_for(
                Some((start, end)),
                length,
            )->Partial_last + 1 - start
        }),
{
}

} // verus!
