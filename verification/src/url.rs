//! Percent-encoding a file path into one URL segment, and back.
//!
//! Everything that is not unreserved is escaped, the separator included: the
//! whole path is one segment, so a slash in it is data, not structure.

use vstd::prelude::*;
use vstd::utf8::*;

use crate::text::{string_from_chars, string_from_utf8};

verus! {

/// The bytes RFC 3986 calls unreserved, which travel as themselves.
pub open spec fn is_unreserved(byte: u8) -> bool {
    ||| 65 <= byte <= 90  // A-Z
    ||| 97 <= byte <= 122  // a-z
    ||| 48 <= byte <= 57  // 0-9
    ||| byte == 45 || byte == 95 || byte == 46 || byte == 126  // - _ . ~
}

/// The upper-case hexadecimal digit for a value below sixteen.
pub open spec fn hex_digit_char(value: int) -> char {
    if value < 10 {
        (48 + value) as char
    } else {
        (55 + value) as char
    }
}

/// How one byte of a path travels: itself, or `%` and two hex digits.
pub open spec fn encoded_byte(byte: u8) -> Seq<char> {
    if is_unreserved(byte) {
        seq![byte as char]
    } else {
        seq!['%', hex_digit_char((byte / 16) as int), hex_digit_char((byte % 16) as int)]
    }
}

/// The escaped form of a byte string, byte by byte.
pub open spec fn percent_encoded(bytes: Seq<u8>) -> Seq<char>
    decreases bytes.len(),
{
    if bytes.len() == 0 {
        Seq::empty()
    } else {
        percent_encoded(bytes.drop_last()) + encoded_byte(bytes.last())
    }
}

/// The URL segment for a path: its UTF-8 bytes, escaped.
pub open spec fn encoded_path(path: Seq<char>) -> Seq<char> {
    percent_encoded(encode_utf8(path))
}

/// The value of one hexadecimal digit, either case.
pub open spec fn hex_value(byte: u8) -> Option<u8> {
    if 48 <= byte <= 57 {
        Some((byte - 48) as u8)
    } else if 97 <= byte <= 102 {
        Some((byte - 87) as u8)
    } else if 65 <= byte <= 70 {
        Some((byte - 55) as u8)
    } else {
        None
    }
}

/// What `u8::from_str_radix(_, 16)` makes of the two bytes after a `%`.
///
/// The standard parser takes an optional leading `+`, so `%+F` reads as
/// fifteen; every other pair needs two hexadecimal digits.
pub open spec fn escape_value(high: u8, low: u8) -> Option<u8> {
    if high == 43 {
        hex_value(low)
    } else {
        match (hex_value(high), hex_value(low)) {
            (Some(h), Some(l)) => Some((h * 16 + l) as u8),
            _ => None,
        }
    }
}

/// `rest` with `head` in front, when there is a `rest`.
pub open spec fn prefixed(head: Seq<u8>, rest: Option<Seq<u8>>) -> Option<Seq<u8>> {
    match rest {
        Some(tail) => Some(head + tail),
        None => None,
    }
}

/// The bytes an escaped segment stands for, or `None` for an escape that
/// is cut short or not hexadecimal.
pub open spec fn percent_decoded(bytes: Seq<u8>) -> Option<Seq<u8>>
    decreases bytes.len(),
{
    if bytes.len() == 0 {
        Some(Seq::empty())
    } else if bytes[0] == 37 {
        if bytes.len() >= 3 && escape_value(bytes[1], bytes[2]) is Some {
            prefixed(seq![escape_value(bytes[1], bytes[2])->0], percent_decoded(bytes.skip(3)))
        } else {
            None
        }
    } else {
        prefixed(seq![bytes[0]], percent_decoded(bytes.skip(1)))
    }
}

/// The path a segment names: its escapes undone, and the bytes read as
/// UTF-8. `None` when either step fails.
pub open spec fn decoded_path(segment: Seq<char>) -> Option<Seq<char>> {
    match percent_decoded(encode_utf8(segment)) {
        Some(bytes) => if valid_utf8(bytes) {
            Some(decode_utf8(bytes))
        } else {
            None
        },
        None => None,
    }
}

/// A character string read byte for byte, as an ASCII one is.
pub open spec fn char_bytes(chars: Seq<char>) -> Seq<u8> {
    Seq::new(chars.len(), |i: int| chars[i] as u8)
}

fn is_unreserved_byte(byte: u8) -> (r: bool)
    ensures
        r == is_unreserved(byte),
{
    (65 <= byte && byte <= 90) || (97 <= byte && byte <= 122) || (48 <= byte && byte <= 57)
        || byte == 45 || byte == 95 || byte == 46 || byte == 126
}

fn hex_digit(value: u8) -> (c: char)
    requires
        value < 16,
    ensures
        c == hex_digit_char(value as int),
{
    if value < 10 {
        (48 + value) as char
    } else {
        (55 + value) as char
    }
}

fn read_hex_digit(byte: u8) -> (r: Option<u8>)
    ensures
        r == hex_value(byte),
{
    if 48 <= byte && byte <= 57 {
        Some(byte - 48)
    } else if 97 <= byte && byte <= 102 {
        Some(byte - 87)
    } else if 65 <= byte && byte <= 70 {
        Some(byte - 55)
    } else {
        None
    }
}

fn read_escape(high: u8, low: u8) -> (r: Option<u8>)
    ensures
        r == escape_value(high, low),
{
    if high == 43 {
        return read_hex_digit(low);
    }
    match (read_hex_digit(high), read_hex_digit(low)) {
        (Some(h), Some(l)) => Some(h * 16 + l),
        _ => None,
    }
}

/// Percent-encodes everything that is not unreserved, the separator
/// included, so the whole path is one URL segment.
pub fn encode(path: &str) -> (res: String)
    ensures
        res@ == encoded_path(path@),
        !res@.contains('/'),
{
    let bytes = path.as_bytes();
    let mut out: Vec<char> = Vec::new();
    let mut index: usize = 0;
    while index < bytes.len()
        invariant
            bytes@ == encode_utf8(path@),
            index <= bytes@.len(),
            out@ == percent_encoded(bytes@.subrange(0, index as int)),
        decreases bytes@.len() - index,
    {
        let byte = bytes[index];
        if is_unreserved_byte(byte) {
            out.push(byte as char);
        } else {
            out.push('%');
            out.push(hex_digit(byte / 16));
            out.push(hex_digit(byte % 16));
        }
        assert(bytes@.subrange(0, index + 1).drop_last() =~= bytes@.subrange(0, index as int));
        index += 1;
    }
    assert(bytes@.subrange(0, bytes@.len() as int) =~= bytes@);
    proof {
        lemma_encoded_is_plain_ascii(bytes@);
    }
    string_from_chars(&out)
}

/// Undoes [`encode`]: `None` for a truncated or non-hexadecimal escape, and
/// for bytes that are not UTF-8.
pub fn decode(encoded: &str) -> (res: Option<String>)
    ensures
        res is Some <==> decoded_path(encoded@) is Some,
        res matches Some(text) ==> text@ == decoded_path(encoded@)->0,
{
    let bytes = encoded.as_bytes();
    let mut out: Vec<u8> = Vec::new();
    let mut index: usize = 0;
    proof {
        assert(bytes@.skip(0) =~= bytes@);
        if let Some(all) = percent_decoded(bytes@) {
            assert(out@ + all =~= all);
        }
    }
    while index < bytes.len()
        invariant
            bytes@ == encode_utf8(encoded@),
            index <= bytes@.len(),
            percent_decoded(bytes@) == prefixed(out@, percent_decoded(bytes@.skip(index as int))),
        decreases bytes@.len() - index,
    {
        let ghost rest = bytes@.skip(index as int);
        if bytes[index] == 37 {
            if bytes.len() - index < 3 {
                assert(percent_decoded(rest) is None);
                return None;
            }
            let value = match read_escape(bytes[index + 1], bytes[index + 2]) {
                Some(value) => value,
                None => {
                    assert(percent_decoded(rest) is None);
                    return None;
                },
            };
            proof {
                assert(rest.skip(3) =~= bytes@.skip(index + 3));
                lemma_prefixed_join(out@, seq![value], percent_decoded(bytes@.skip(index + 3)));
                assert(out@.push(value) =~= out@ + seq![value]);
            }
            out.push(value);
            index += 3;
        } else {
            let byte = bytes[index];
            proof {
                assert(rest.skip(1) =~= bytes@.skip(index + 1));
                lemma_prefixed_join(out@, seq![byte], percent_decoded(bytes@.skip(index + 1)));
                assert(out@.push(byte) =~= out@ + seq![byte]);
            }
            out.push(byte);
            index += 1;
        }
    }
    assert(bytes@.skip(index as int) =~= Seq::<u8>::empty());
    assert(out@ + Seq::<u8>::empty() =~= out@);
    string_from_utf8(out)
}

proof fn lemma_prefixed_join(first: Seq<u8>, second: Seq<u8>, rest: Option<Seq<u8>>)
    ensures
        prefixed(first, prefixed(second, rest)) == prefixed(first + second, rest),
{
    if let Some(tail) = rest {
        assert(first + (second + tail) =~= (first + second) + tail);
    }
}

/// Every character of an escaped byte string is ASCII, and none is `/`.
pub proof fn lemma_encoded_is_plain_ascii(bytes: Seq<u8>)
    ensures
        is_ascii_chars(percent_encoded(bytes)),
        !percent_encoded(bytes).contains('/'),
    decreases bytes.len(),
{
    if bytes.len() > 0 {
        lemma_encoded_is_plain_ascii(bytes.drop_last());
        let head = percent_encoded(bytes.drop_last());
        let tail = encoded_byte(bytes.last());
        assert(is_ascii_chars(tail));
        assert(!tail.contains('/'));
        assert forall|i: int| 0 <= i < (head + tail).len() implies '\0' <= #[trigger] (head
            + tail)[i] <= '\u{7f}' && (head + tail)[i] != '/' by {
            if i < head.len() {
                assert((head + tail)[i] == head[i]);
            } else {
                assert((head + tail)[i] == tail[i - head.len()]);
            }
        }
    }
}

/// The escaped form read from the front: the first byte's escape, then the
/// rest's.
proof fn lemma_encoded_front(bytes: Seq<u8>)
    requires
        bytes.len() > 0,
    ensures
        percent_encoded(bytes) == encoded_byte(bytes[0]) + percent_encoded(bytes.skip(1)),
    decreases bytes.len(),
{
    if bytes.len() == 1 {
        assert(bytes.drop_last() =~= Seq::<u8>::empty());
        assert(percent_encoded(bytes.drop_last()) =~= Seq::<char>::empty());
        assert(percent_encoded(bytes.skip(1)) =~= Seq::<char>::empty());
        assert(bytes.skip(1) =~= Seq::<u8>::empty());
        assert(percent_encoded(bytes) =~= encoded_byte(bytes[0]));
    } else {
        lemma_encoded_front(bytes.drop_last());
        assert(bytes.drop_last().skip(1) =~= bytes.skip(1).drop_last());
        assert(bytes.skip(1).last() == bytes.last());
        assert(percent_encoded(bytes) =~= encoded_byte(bytes[0]) + percent_encoded(bytes.skip(1)));
    }
}

/// Reading an escaped byte string back gives the bytes it was made from.
proof fn lemma_decode_escaped(bytes: Seq<u8>)
    ensures
        percent_decoded(char_bytes(percent_encoded(bytes))) == Some(bytes),
    decreases bytes.len(),
{
    if bytes.len() == 0 {
        assert(char_bytes(percent_encoded(bytes)) =~= Seq::<u8>::empty());
    } else {
        lemma_encoded_front(bytes);
        let first = encoded_byte(bytes[0]);
        let rest = percent_encoded(bytes.skip(1));
        lemma_decode_escaped(bytes.skip(1));
        let all = char_bytes(first + rest);
        let b = bytes[0];
        if is_unreserved(b) {
            assert(all.skip(1) =~= char_bytes(rest));
            assert(all[0] == b);
            assert(seq![b] + bytes.skip(1) =~= bytes);
        } else {
            assert(all.skip(3) =~= char_bytes(rest));
            assert(all[0] == 37);
            assert(escape_value(all[1], all[2]) == Some(b)) by {
                assert(all[1] == hex_digit_char((b / 16) as int) as u8);
                assert(all[2] == hex_digit_char((b % 16) as int) as u8);
            }
            assert(seq![b] + bytes.skip(1) =~= bytes);
        }
    }
}

/// A path survives the trip through [`encode`] and [`decode`] unchanged,
/// whatever characters it holds.
pub proof fn lemma_decode_inverts_encode(path: Seq<char>)
    ensures
        decoded_path(encoded_path(path)) == Some(path),
{
    let bytes = encode_utf8(path);
    let segment = percent_encoded(bytes);
    lemma_encoded_is_plain_ascii(bytes);
    is_ascii_chars_encode_utf8(segment);
    assert(encode_utf8(segment) =~= char_bytes(segment));
    lemma_decode_escaped(bytes);
    encode_utf8_valid_utf8(path);
    encode_utf8_decode_utf8(path);
}

} // verus!
