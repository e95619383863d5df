//! The files a project keeps in its `cache/` folder, and the limits around
//! what the host hands the webview.
//!
//! Cache keys name files that outlive the process, so they are computed by
//! an algorithm fixed here rather than `DefaultHasher`, which may change
//! between Rust releases.

use vstd::prelude::*;
use vstd::utf8::*;

use crate::scan::{decimal, push_decimal};
use crate::text::{chars_of, string_from_chars};

verus! {

/// Resolution of the cached waveform: roughly two buckets per pixel at the
/// default timeline zoom.
pub const PEAKS_BUCKETS_PER_SECOND: u32 = 200;

/// The most `read_media_bytes` will hand the webview at once: 64 MiB.
pub const MEDIA_READ_CAP: u64 = 67108864;

/// FNV-1a's 64-bit starting value.
pub const FNV_OFFSET: u64 = 0xcbf2_9ce4_8422_2325;

/// FNV-1a's 64-bit prime.
pub const FNV_PRIME: u64 = 0x0000_0100_0000_01b3;

/// FNV-1a, 64 bits: each byte is folded in with exclusive-or, then the hash
/// is multiplied by the prime, wrapping.
pub open spec fn fnv1a(bytes: Seq<u8>) -> u64
    decreases bytes.len(),
{
    if bytes.len() == 0 {
        FNV_OFFSET
    } else {
        vstd::wrapping::u64_specs::wrapping_mul(
            fnv1a(bytes.drop_last()) ^ (bytes.last() as u64),
            FNV_PRIME,
        )
    }
}

/// A lower-case hexadecimal digit.
pub open spec fn lower_hex_char(value: u64) -> char {
    if value < 10 {
        (48 + value) as char
    } else {
        (87 + value) as char
    }
}

/// `{:016x}`: sixteen lower-case hex digits, most significant first.
pub open spec fn hex16(value: u64) -> Seq<char> {
    Seq::new(16, |i: int| lower_hex_char((value >> ((60 - 4 * i) as u64)) & 15))
}

/// The cache file name for one media file's peaks: the path's hash, then
/// the bucket rate, so a resolution change regenerates instead of serving
/// yesterday's shape.
pub open spec fn peaks_file_name(path: Seq<char>) -> Seq<char> {
    hex16(fnv1a(encode_utf8(path))) + seq!['-', 'b'] + decimal(PEAKS_BUCKETS_PER_SECOND as nat)
        + seq!['.', 'p', 'e', 'a', 'k', 's']
}

/// A little-endian `u32` from four bytes.
pub open spec fn le_u32(b0: u8, b1: u8, b2: u8, b3: u8) -> int {
    b0 + 256 * b1 + 65536 * b2 + 16777216 * b3
}

/// The shape `Peaks::encode` writes:
/// `[rate f32][count u32][min f32 x count][max f32 x count]`.
pub open spec fn is_peaks_shape(bytes: Seq<u8>) -> bool {
    bytes.len() >= 8 && bytes.len() == 8 + 8 * le_u32(bytes[4], bytes[5], bytes[6], bytes[7])
}

/// A character a cache key may hold.
pub open spec fn is_key_char(c: char) -> bool {
    ||| 'a' <= c <= 'z'
    ||| 'A' <= c <= 'Z'
    ||| '0' <= c <= '9'
    ||| c == '.' || c == '_' || c == '-'
}

/// A key confined to one flat file name: not empty, only ASCII letters,
/// digits, `.`, `_` and `-`, and not starting with `.`.
pub open spec fn is_artwork_key(key: Seq<char>) -> bool {
    &&& key.len() > 0
    &&& forall|i: int| 0 <= i < key.len() ==> is_key_char(#[trigger] key[i])
    &&& key[0] != '.'
}

/// What `format!("{:?}", text)` writes for a string: the text quoted, with
/// the characters Rust's `Debug` escapes written as escapes.
pub uninterp spec fn debug_quoted(text: Seq<char>) -> Seq<char>;

/// Calls `format!("{text:?}")`.
#[verifier::external_body]
fn debug_text(text: &str) -> (quoted: String)
    ensures
        quoted@ == debug_quoted(text@),
{
    format!("{text:?}")
}

/// The refusal for a key that could walk out of the cache folder.
pub open spec fn refused_key_message(key: Seq<char>) -> Seq<char> {
    "refusing artwork key "@ + debug_quoted(key)
}

/// The refusal for a file over [`MEDIA_READ_CAP`].
pub open spec fn oversize_message(path: Seq<char>, size: u64) -> Seq<char> {
    "refusing to read "@ + path + ": "@ + decimal(size as nat) + " bytes is over the "@ + decimal(
        MEDIA_READ_CAP as nat,
    ) + " byte limit"@
}

/// The cache filename for one file's peaks.
///
/// FNV-1a 64 over the path's UTF-8 bytes, written as sixteen hex digits,
/// then `-b200.peaks`.
pub fn peaks_key(path: &str) -> (key: String)
    ensures
        key@ == peaks_file_name(path@),
{
    let bytes = path.as_bytes();
    let mut hash: u64 = FNV_OFFSET;
    let mut i: usize = 0;
    while i < bytes.len()
        invariant
            bytes@ == encode_utf8(path@),
            i <= bytes@.len(),
            hash == fnv1a(bytes@.take(i as int)),
        decreases bytes@.len() - i,
    {
        assert(bytes@.take(i + 1).drop_last() =~= bytes@.take(i as int));
        hash = (hash ^ (bytes[i] as u64)).wrapping_mul(FNV_PRIME);
        i += 1;
    }
    assert(bytes@.take(bytes@.len() as int) =~= bytes@);
    let mut out: Vec<char> = Vec::new();
    let mut digit: usize = 0;
    while digit < 16
        invariant
            digit <= 16,
            out@ == hex16(hash).take(digit as int),
        decreases 16 - digit,
    {
        let shift = (60 - 4 * digit) as u64;
        let nibble = (hash >> shift) & 15;
        assert(nibble < 16) by (bit_vector)
            requires
                nibble == (hash >> shift) & 15,
        ;
        let c = if nibble < 10 {
            ((48 + nibble) as u8) as char
        } else {
            ((87 + nibble) as u8) as char
        };
        out.push(c);
        assert(out@ =~= hex16(hash).take(digit + 1));
        digit += 1;
    }
    assert(out@ =~= hex16(hash));
    out.push('-');
    out.push('b');
    push_decimal(&mut out, PEAKS_BUCKETS_PER_SECOND as u64);
    out.push('.');
    out.push('p');
    out.push('e');
    out.push('a');
    out.push('k');
    out.push('s');
    assert(out@ =~= peaks_file_name(path@));
    string_from_chars(&out)
}

/// Whether bytes have the shape `Peaks::encode` writes, so a corrupt cache
/// entry falls through to regeneration rather than being served.
pub fn plausible_peaks(bytes: &[u8]) -> (plausible: bool)
    ensures
        plausible == is_peaks_shape(bytes@),
{
    if bytes.len() < 8 {
        return false;
    }
    let count = bytes[4] as u64 + 256 * (bytes[5] as u64) + 65536 * (bytes[6] as u64) + 16777216 * (
    bytes[7] as u64);
    bytes.len() as u64 == 8 + count * 8
}

/// Checks that a cache key is one flat file name. Anything that could walk
/// out of the folder is refused rather than sanitised: the only caller is
/// the app's own frontend, and a strange key is a bug.
pub fn check_artwork_key(key: &str) -> (checked: Result<(), String>)
    ensures
        checked is Ok <==> is_artwork_key(key@),
        checked matches Err(message) ==> message@ == refused_key_message(key@),
{
    let chars = chars_of(key);
    let mut good = chars.len() > 0 && chars[0] != '.';
    let mut i: usize = 0;
    while good && i < chars.len()
        invariant
            chars@ == key@,
            i <= chars@.len(),
            good ==> chars@.len() > 0 && chars@[0] != '.',
            good ==> forall|j: int| 0 <= j < i ==> is_key_char(#[trigger] chars@[j]),
            !good ==> !is_artwork_key(key@),
        decreases chars@.len() - i,
    {
        let c = chars[i];
        if !(('a' <= c && c <= 'z') || ('A' <= c && c <= 'Z') || ('0' <= c && c <= '9') || c == '.'
            || c == '_' || c == '-') {
            assert(!is_key_char(chars@[i as int]));
            good = false;
        }
        i += 1;
    }
    if good {
        Ok(())
    } else {
        let mut message = String::from_str("refusing artwork key ");
        let quoted = debug_text(key);
        message.append(quoted.as_str());
        Err(message)
    }
}

/// Checks a file's size against [`MEDIA_READ_CAP`] before the whole file is
/// read into memory.
pub fn check_read_size(path: &str, size: u64) -> (checked: Result<(), String>)
    ensures
        checked is Ok <==> size <= MEDIA_READ_CAP,
        checked matches Err(message) ==> message@ == oversize_message(path@, size),
{
    if size <= MEDIA_READ_CAP {
        return Ok(());
    }
    let mut out = chars_of("refusing to read ");
    let path_chars = chars_of(path);
    let mut i: usize = 0;
    while i < path_chars.len()
        invariant
            i <= path_chars@.len(),
            out@ == "refusing to read "@ + path_chars@.take(i as int),
        decreases path_chars@.len() - i,
    {
        out.push(path_chars[i]);
        assert(out@ =~= "refusing to read "@ + path_chars@.take(i + 1));
        i += 1;
    }
    assert(path_chars@.take(path_chars@.len() as int) =~= path_chars@);
    let mut message = string_from_chars(&out);
    message.append(": ");
    let mut number: Vec<char> = Vec::new();
    push_decimal(&mut number, size);
    message.append(string_from_chars(&number).as_str());
    message.append(" bytes is over the ");
    let mut cap: Vec<char> = Vec::new();
    push_decimal(&mut cap, MEDIA_READ_CAP);
    message.append(string_from_chars(&cap).as_str());
    message.append(" byte limit");
    assert(number@ =~= Seq::<char>::empty() + decimal(size as nat));
    assert(cap@ =~= Seq::<char>::empty() + decimal(MEDIA_READ_CAP as nat));
    assert(message@ =~= oversize_message(path@, size));
    Err(message)
}

/// How many frames a filmstrip shows and how tall it is, each clamped to
/// what the timeline can use: one to sixty frames, sixteen to 240 pixels.
pub fn filmstrip_bounds(count: u32, height: u32) -> (bounds: (u32, u32))
    ensures
        bounds.0 == if count < 1 {
            1
        } else if count > 60 {
            60
        } else {
            count
        },
        bounds.1 == if height < 16 {
            16
        } else if height > 240 {
            240
        } else {
            height
        },
{
    let count = if count < 1 {
        1
    } else if count > 60 {
        60
    } else {
        count
    };
    let height = if height < 16 {
        16
    } else if height > 240 {
        240
    } else {
        height
    };
    (count, height)
}

} // verus!
