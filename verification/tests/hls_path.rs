use xiu::hls::path::{HlsFileType, HlsPath};
use xiu::hls::request::{parse_u64, playlist_request, playlist_ready, PlaylistRequest};

#[test]
fn test_hls_path_parse() {
    // Playlist
    let playlist = HlsPath::parse("/live/stream/stream.m3u8").unwrap();
    assert_eq!(playlist.app_name, "live");
    assert_eq!(playlist.stream_name, "stream");
    assert_eq!(playlist.file_name, "stream");
    assert!(matches!(playlist.file_type, HlsFileType::Playlist));
    assert_eq!(playlist.to_file_path(), "./live/stream/stream.m3u8");
    assert_eq!(
        playlist.file_type.content_type(),
        "application/vnd.apple.mpegurl"
    );

    // Segment
    let segment = HlsPath::parse("/live/stream/123.ts").unwrap();
    assert_eq!(segment.app_name, "live");
    assert_eq!(segment.stream_name, "stream");
    assert_eq!(segment.file_name, "123");
    assert!(matches!(segment.file_type, HlsFileType::Segment));
    assert_eq!(segment.to_file_path(), "./live/stream/123.ts");
    assert_eq!(segment.file_type.content_type(), "video/mp2t");

    // Negative
    assert!(HlsPath::parse("").is_none());
    assert!(HlsPath::parse("/invalid").is_none());
    assert!(HlsPath::parse("/too/many/parts/of/path.m3u8").is_none());
    assert!(HlsPath::parse("/live/stream/invalid.mp4").is_none());
    assert!(HlsPath::parse("/live/stream/../../etc/passwd").is_none());
    assert!(HlsPath::parse("/live/stream/...").is_none());
    assert!(HlsPath::parse("/live/stream.m3u8").is_none());
    assert!(HlsPath::parse("/live/stream.ts").is_none());
    assert!(HlsPath::parse("/live/stream/").is_none());
    assert!(HlsPath::parse("/live/stream.m3u8").is_none());
    assert!(HlsPath::parse("/live/stream.ts").is_none());
    assert!(HlsPath::parse("/live/stream/file.").is_none());
    assert!(HlsPath::parse("/live/stream/.m3u8").is_none());
    assert!(HlsPath::parse("/live/stream/file.M3U8").is_none());
    assert!(HlsPath::parse("/live/stream/file.TS").is_none());
}

#[test]
fn hls_path_keeps_dots_inside_the_name() {
    let p = HlsPath::parse("/app/cam1/seg.part.ts").unwrap();
    assert_eq!(p.file_name, "seg.part");
    assert_eq!(p.to_file_path(), "./app/cam1/seg.part.ts");
}

#[test]
fn parse_u64_reads_decimal_text() {
    assert_eq!(parse_u64("0"), Some(0));
    assert_eq!(parse_u64("42"), Some(42));
    assert_eq!(parse_u64("+7"), Some(7));
    assert_eq!(parse_u64("18446744073709551615"), Some(u64::MAX));
    assert_eq!(parse_u64("18446744073709551616"), None);
    assert_eq!(parse_u64(""), None);
    assert_eq!(parse_u64("+"), None);
    assert_eq!(parse_u64("-1"), None);
    assert_eq!(parse_u64("12a"), None);
    assert_eq!(parse_u64(" 1"), None);
    // the same answers as std
    for s in ["0", "42", "+7", "", "+", "-1", "12a", "99999999999999999999"] {
        assert_eq!(parse_u64(s), s.parse::<u64>().ok());
    }
}

#[test]
fn msn_written_in_decimal_reads_back() {
    for n in [0u64, 9, 10, 12345, u64::MAX] {
        assert_eq!(parse_u64(&format!("{}", n)), Some(n));
    }
}

#[test]
fn playlist_request_directives() {
    assert_eq!(playlist_request(None, false), PlaylistRequest::Plain);
    assert_eq!(playlist_request(None, true), PlaylistRequest::BadRequest);
    assert_eq!(playlist_request(Some("5"), false), PlaylistRequest::Blocking(5));
    assert_eq!(playlist_request(Some("5"), true), PlaylistRequest::Blocking(5));
    assert_eq!(playlist_request(Some("x"), false), PlaylistRequest::BadRequest);
}

#[test]
fn playlist_ready_once_past_the_segment() {
    assert!(playlist_ready(6, 5));
    assert!(!playlist_ready(5, 5));
    assert!(!playlist_ready(4, 5));
}

#[test]
fn file_path_is_dot_and_the_request_path() {
    for p in ["/live/stream/stream.m3u8", "/live/stream/123.ts", "/a/b/c.d.ts"] {
        assert_eq!(HlsPath::parse(p).unwrap().to_file_path(), format!(".{}", p));
    }
}
