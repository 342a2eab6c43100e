use optiflow::base64::{base64_decode, base64_encode};
use optiflow::domain::NativePath;
use optiflow::inventory::classify_content_type;
use optiflow::domain::MediaKind;
use optiflow::render::escape_terminal_text;

#[test]
fn base64_encode_produces_rfc4648_standard_output() {
    assert_eq!(base64_encode(b""), "");
    assert_eq!(base64_encode(b"f"), "Zg==");
    assert_eq!(base64_encode(b"fo"), "Zm8=");
    assert_eq!(base64_encode(b"foo"), "Zm9v");
    assert_eq!(base64_encode(b"foob"), "Zm9vYg==");
    assert_eq!(base64_encode(b"fooba"), "Zm9vYmE=");
    assert_eq!(base64_encode(b"foobar"), "Zm9vYmFy");
}

#[test]
fn base64_decode_inverts_encode() {
    for original in [b"".as_ref(), b"f", b"fo", b"foo", b"foob", b"fooba", b"foobar"] {
        let encoded = base64_encode(original);
        let decoded = base64_decode(&encoded);
        assert_eq!(decoded.as_slice(), original, "roundtrip failed for {:?}", original);
    }
}

#[test]
fn base64_decode_handles_arbitrary_bytes() {
    let all_bytes: Vec<u8> = (0u8..=255).collect();
    let encoded = base64_encode(&all_bytes);
    let decoded = base64_decode(&encoded);
    assert_eq!(decoded, all_bytes);
}

#[test]
fn native_path_utf8_roundtrips() {
    let path = b"/tmp/example/file.txt";
    let native = NativePath::from_path(path);
    match &native {
        NativePath::Utf8 { value } => assert_eq!(value, "/tmp/example/file.txt"),
        NativePath::UnixBytes { .. } => panic!("expected Utf8 variant"),
    }
    assert_eq!(native.display(), "/tmp/example/file.txt");
    assert_eq!(native.to_path_buf(), path.to_vec());
}

#[test]
fn native_path_display_escapes_terminal_control_characters() {
    let native = NativePath::Utf8 { value: "/tmp/line\n\u{1b}[31m.txt".to_owned() };
    assert_eq!(native.display(), "/tmp/line\\n\\u{1b}[31m.txt");
}

#[test]
fn native_path_non_utf8_unix_roundtrips() {
    let raw: &[u8] = b"/tmp/\xff\xfe/file.bin";
    let native = NativePath::from_path(raw);
    match &native {
        NativePath::UnixBytes { .. } => {}
        NativePath::Utf8 { .. } => panic!("expected UnixBytes variant for non-UTF-8 path"),
    }
    let key = native.sqlite_key();
    assert!(key.starts_with('\x00'), "sqlite_key must have NUL sentinel");
    assert_eq!(native.to_path_buf(), raw.to_vec(), "to_path_buf must exactly reproduce original bytes");
}

#[test]
fn native_path_sqlite_key_is_stable_for_utf8_paths() {
    let native = NativePath::Utf8 { value: "/home/user/file.txt".to_owned() };
    assert_eq!(native.sqlite_key(), "/home/user/file.txt");
}

#[test]
fn native_path_ordering_is_consistent() {
    let a = NativePath::Utf8 { value: "/a".to_owned() };
    let b = NativePath::Utf8 { value: "/b".to_owned() };
    assert!(a < b);
    assert!(b > a);
    assert_eq!(a.cmp(&a), std::cmp::Ordering::Equal);
    let non_utf8 = NativePath::UnixBytes { base64: "Zm9v".to_owned() };
    assert!(non_utf8 < a, "UnixBytes must sort before Utf8");
}

#[test]
fn native_path_compare_agrees_with_ordering() {
    let a = NativePath::Utf8 { value: "/a".to_owned() };
    let b = NativePath::Utf8 { value: "/b".to_owned() };
    let non_utf8 = NativePath::UnixBytes { base64: "Zm9v".to_owned() };
    assert_eq!(a.compare(&b), -1);
    assert_eq!(b.compare(&a), 1);
    assert_eq!(a.compare(&a), 0);
    assert_eq!(non_utf8.compare(&a), -1);
    assert!(a.same(&a.copy()));
}

#[test]
fn non_utf8_display_and_key_use_their_markers() {
    let native = NativePath::UnixBytes { base64: "Zm9v".to_owned() };
    assert_eq!(native.display(), "<non-utf8:Zm9v>");
    assert_eq!(native.sqlite_key(), "\u{0}unix_bytes:Zm9v");
    assert_eq!(native.to_path_buf(), b"foo".to_vec());
}

#[test]
fn content_type_prefixes_map_to_media_kinds() {
    assert_eq!(classify_content_type("image/png"), MediaKind::Image);
    assert_eq!(classify_content_type("video/mp4"), MediaKind::Video);
    assert_eq!(classify_content_type("audio/flac"), MediaKind::Audio);
    assert_eq!(classify_content_type("application/pdf"), MediaKind::Other);
}

#[test]
fn terminal_text_cannot_forge_lines_or_control_sequences() {
    assert_eq!(escape_terminal_text("line one\n\u{1b}[31mline two"), "line one\\n\\u{1b}[31mline two");
}

#[test]
fn path_order_agrees_with_the_stable_key_order() {
    let paths = vec![
        NativePath::from_path(b"/media/a.png"),
        NativePath::from_path(b"/media/b.png"),
        NativePath::from_path(b"/media/\xff.png"),
        NativePath::from_path(b"/media/\xfe.png"),
        NativePath::from_path(b"/z"),
    ];
    for a in &paths {
        for b in &paths {
            let by_key = a.sqlite_key().cmp(&b.sqlite_key());
            let by_path = a.compare(b);
            assert_eq!(by_path < 0, by_key == std::cmp::Ordering::Less);
            assert_eq!(by_path == 0, by_key == std::cmp::Ordering::Equal);
        }
    }
}
