use wolfcut::http::{
    chunk_size, header, parse_range, CHUNK, plan_reply, read_header_line, request_from_line, write_not_found_head,
    write_reply_head, Reply,
};
use wolfcut::media::{classify, classify_extension, mime_of, mime_of_extension};
use wolfcut::server::{constant_time_eq, hex_token, MediaServer};
use wolfcut::url::{decode, encode};

#[test]
fn a_path_round_trips_through_the_encoding() {
    for path in [
        "/home/user/Videos/clip.mp4",
        "/home/user/WhatsApp Video 2026-08-01 at 19.38.21.mp4",
        "/home/user/percent%20already/#hash?query.mp4",
        "/home/user/ドキュメント/映像.mp4",
    ] {
        assert_eq!(decode(&encode(path)).as_deref(), Some(path));
    }
}

#[test]
fn the_separator_is_encoded_so_a_path_stays_one_segment() {
    let encoded = encode("/a/b.mp4");
    assert!(!encoded.contains('/'), "{encoded} would split into segments");
}

#[test]
fn a_truncated_escape_is_refused_rather_than_guessed() {
    assert_eq!(decode("%2"), None);
    assert_eq!(decode("%zz"), None);
}

#[test]
fn ranges_parse_both_forms_and_reject_the_rest() {
    assert_eq!(parse_range("bytes=0-499"), Some((0, Some(499))));
    assert_eq!(parse_range("bytes=500-"), Some((500, None)));
    assert_eq!(parse_range(" bytes=1-2 "), Some((1, Some(2))));
    assert_eq!(parse_range("items=0-1"), None);
    assert_eq!(parse_range("bytes=abc"), None);
}

#[test]
fn only_admitted_paths_resolve_and_only_with_the_token() {
    let mut server = MediaServer::new("http://127.0.0.1:1".to_owned(), "abc123".to_owned());
    server.allow("/home/user/clip.mp4");
    let encoded = encode("/home/user/clip.mp4");

    assert_eq!(
        server.resolve(&format!("/abc123/{encoded}")).as_deref(),
        Some("/home/user/clip.mp4")
    );
    assert_eq!(server.resolve(&format!("/wrong/{encoded}")), None, "bad token");
    assert_eq!(
        server.resolve(&format!("/abc123/{}", encode("/etc/passwd"))),
        None,
        "never imported"
    );
    assert_eq!(
        server.resolve(&format!("/abc123/{}", encode("/home/user/../../etc/passwd"))),
        None,
        "no prefix to escape: the whole path is matched"
    );
}

#[test]
fn a_url_is_only_minted_for_an_admitted_file() {
    let mut server = MediaServer::new("http://127.0.0.1:1".to_owned(), "t".to_owned());
    assert_eq!(server.url_for("/home/user/clip.mp4"), None);
    server.allow("/home/user/clip.mp4");
    assert_eq!(
        server.url_for("/home/user/clip.mp4").as_deref(),
        Some("http://127.0.0.1:1/t/%2Fhome%2Fuser%2Fclip.mp4")
    );
}

#[test]
fn mime_types_come_from_the_extension_and_never_guess() {
    assert_eq!(mime_of("/a/b.MP4"), "video/mp4");
    assert_eq!(mime_of("/a/b.mov"), "video/quicktime");
    assert_eq!(mime_of("/a/b.exe"), "application/octet-stream");
    assert_eq!(mime_of("/a/b"), "application/octet-stream");
}

#[test]
fn unreserved_bytes_travel_as_themselves_and_the_rest_as_upper_hex() {
    assert_eq!(encode("Az09-_.~"), "Az09-_.~");
    assert_eq!(encode("a b/ü"), "a%20b%2F%C3%BC");
    assert_eq!(encode(""), "");
}

#[test]
fn decoding_accepts_either_case_and_the_parsers_plus_sign() {
    assert_eq!(decode("%2f%2F").as_deref(), Some("//"));
    assert_eq!(decode("%+F").as_deref(), Some("\u{f}"));
    assert_eq!(decode("plain").as_deref(), Some("plain"));
    assert_eq!(decode("%-1"), None);
    assert_eq!(decode("%C3"), None, "half a character is not UTF-8");
    assert_eq!(decode("%"), None);
}

#[test]
fn ranges_refuse_overflow_and_accept_a_plus_sign() {
    assert_eq!(parse_range("bytes=18446744073709551615-"), Some((u64::MAX, None)));
    assert_eq!(parse_range("bytes=18446744073709551616-"), None);
    assert_eq!(parse_range("bytes=+5-+6"), Some((5, Some(6))));
    assert_eq!(parse_range("bytes= 7 - 9 "), Some((7, Some(9))));
    assert_eq!(parse_range("bytes=-5"), None, "suffix ranges are not supported");
    assert_eq!(parse_range("bytes=1-2-3"), None);
    assert_eq!(parse_range("BYTES=1-2"), None, "the unit is matched as written");
}

#[test]
fn headers_match_their_name_in_any_case() {
    assert_eq!(header("Range: bytes=0-1\r\n", "range").as_deref(), Some("bytes=0-1"));
    assert_eq!(header("  RANGE :x", "range").as_deref(), Some("x"));
    assert_eq!(header("Host: a:b", "host").as_deref(), Some("a:b"));
    assert_eq!(header("Accept: */*", "range"), None);
    assert_eq!(header("no colon here", "range"), None);
}

#[test]
fn a_request_line_gives_the_method_and_target() {
    let request = request_from_line("GET /t/%2Fa.mp4 HTTP/1.1\r\n");
    assert_eq!(request.target, "/t/%2Fa.mp4");
    assert!(!request.head_only);
    assert_eq!(request.range, None);
    let request = request_from_line("head /x HTTP/1.1\r\n");
    assert!(request.head_only);
    assert_eq!(request.target, "/x");
    let request = request_from_line("");
    assert_eq!(request.target, "");
    assert!(!request.head_only);
}

#[test]
fn header_lines_set_the_range_until_a_blank_line() {
    let mut request = request_from_line("GET /x HTTP/1.1\r\n");
    assert!(read_header_line(&mut request, "Host: localhost\r\n", 17, 40));
    assert_eq!(request.range, None);
    assert!(read_header_line(&mut request, "Range: bytes=10-\r\n", 18, 58));
    assert_eq!(request.range, Some((10, None)));
    assert!(!read_header_line(&mut request, "\r\n", 2, 60));
    assert_eq!(request.range, Some((10, None)));
    assert!(!read_header_line(&mut request, "Range: bytes=1-2\r\n", 18, 20_000), "too long");
    assert!(!read_header_line(&mut request, "", 0, 60), "end of stream");
    assert!(read_header_line(&mut request, "range: nonsense\r\n", 17, 80));
    assert_eq!(request.range, None, "a malformed range asks for the whole file");
}

#[test]
fn replies_clip_the_range_to_the_file() {
    assert_eq!(plan_reply(None, 100), Reply::Whole { count: 100 });
    assert_eq!(plan_reply(Some((10, None)), 100), Reply::Partial { start: 10, last: 99, count: 90 });
    assert_eq!(
        plan_reply(Some((10, Some(500))), 100),
        Reply::Partial { start: 10, last: 99, count: 90 }
    );
    assert_eq!(plan_reply(Some((0, Some(0))), 100), Reply::Partial { start: 0, last: 0, count: 1 });
    assert_eq!(plan_reply(Some((100, None)), 100), Reply::Unsatisfiable);
    assert_eq!(plan_reply(Some((0, None)), 0), Reply::Unsatisfiable);
}

#[test]
fn token_comparison_is_exact() {
    assert!(constant_time_eq(b"abc", b"abc"));
    assert!(!constant_time_eq(b"abc", b"abd"));
    assert!(!constant_time_eq(b"abc", b"ab"));
    assert!(constant_time_eq(b"", b""));
}

#[test]
fn admitting_twice_is_admitting_once() {
    let mut server = MediaServer::new("http://127.0.0.1:9".to_owned(), "k".to_owned());
    server.allow("/a.mp4");
    server.allow("/a.mp4");
    assert_eq!(server.url_for("/a.mp4").as_deref(), Some("http://127.0.0.1:9/k/%2Fa.mp4"));
    assert!(server.is_allowed("/a.mp4"));
    assert!(!server.is_allowed("/b.mp4"));
    let url = server.url_for("/a.mp4").expect("admitted");
    let target = url.strip_prefix("http://127.0.0.1:9").expect("origin");
    assert_eq!(server.resolve(target).as_deref(), Some("/a.mp4"));
}

#[test]
fn extensions_decide_the_mime_type_in_any_case() {
    assert_eq!(mime_of_extension(Some("WebM")), "video/webm");
    assert_eq!(mime_of_extension(Some("opus")), "audio/ogg");
    assert_eq!(mime_of_extension(Some("JPEG")), "image/jpeg");
    assert_eq!(mime_of_extension(None), "application/octet-stream");
    assert_eq!(mime_of("/a/.hidden"), "application/octet-stream");
}

#[test]
fn imports_classify_by_stream_extension_and_duration() {
    assert_eq!(classify("/a/song.mp3", false, true), "audio");
    assert_eq!(classify("/a/photo.PNG", true, false), "image");
    assert_eq!(classify("/a/anim.gif", true, true), "video", "an animation has a duration");
    assert_eq!(classify("/a/clip.mp4", true, false), "video");
    assert_eq!(classify_extension(Some("heic"), true, false), "image");
    assert_eq!(classify_extension(None, true, false), "video");
}

#[test]
fn reply_heads_say_what_follows() {
    assert_eq!(
        write_reply_head(Reply::Whole { count: 10 }, "video/mp4", 10),
        "HTTP/1.1 200 OK\r\nContent-Type: video/mp4\r\nContent-Length: 10\r\nAccept-Ranges: bytes\r\nCache-Control: no-store\r\nConnection: close\r\n\r\n"
    );
    assert_eq!(
        write_reply_head(Reply::Partial { start: 2, last: 5, count: 4 }, "audio/wav", 10),
        "HTTP/1.1 206 Partial Content\r\nContent-Type: audio/wav\r\nContent-Length: 4\r\nAccept-Ranges: bytes\r\nCache-Control: no-store\r\nConnection: close\r\nContent-Range: bytes 2-5/10\r\n\r\n"
    );
    assert_eq!(
        write_reply_head(Reply::Unsatisfiable, "video/mp4", 10),
        "HTTP/1.1 416 Range Not Satisfiable\r\nContent-Range: bytes */10\r\nContent-Length: 0\r\nConnection: close\r\n\r\n"
    );
    assert_eq!(
        write_not_found_head(),
        "HTTP/1.1 404 Not Found\r\nContent-Length: 0\r\nConnection: close\r\n\r\n"
    );
}

#[test]
fn tokens_are_two_lower_hex_digits_per_byte() {
    assert_eq!(hex_token(&[0x00, 0x0f, 0xa5, 0xff]), "000fa5ff");
    assert_eq!(hex_token(&[7u8; 16]).len(), 32);
    assert_eq!(hex_token(&[]), "");
}

#[test]
fn reads_move_a_chunk_at_a_time() {
    assert_eq!(chunk_size(0), 0);
    assert_eq!(chunk_size(10), 10);
    assert_eq!(chunk_size(CHUNK as u64), CHUNK);
    assert_eq!(chunk_size(u64::MAX), CHUNK);
}

#[test]
fn a_minted_url_resolves_back_to_its_file() {
    let origin = "http://127.0.0.1:4242";
    let mut server = MediaServer::new(origin.to_owned(), "0f1e2d3c4b5a69788796a5b4c3d2e1f0".to_owned());
    for path in ["/home/user/My Clip (1).mp4", "/tmp/ü/ß.wav", "C:\\media\\a%20b.png"] {
        server.allow(path);
        let url = server.url_for(path).expect("admitted");
        assert_eq!(server.resolve(&url[origin.len()..]).as_deref(), Some(path));
    }
}
