use wslpath::convert::win_to_wsl::decode;
use wslpath::convert::windows_file_name_char::{IllegalWindowsFileNameCharError, WindowsFileNameCharType};
use wslpath::convert::wsl_to_win::encode;

fn is_escaped(b: u8) -> bool {
    b < 0x20 || b"\"*:<>?|\\".contains(&b)
}

fn decoded(p: &[u8]) -> Result<Vec<u8>, IllegalWindowsFileNameCharError> {
    let mut buf = Vec::new();
    decode::path(p, &mut buf).map(|()| buf)
}

#[test]
fn codepoint_decodes_low_form() {
    assert_eq!(decode::codepoint([239, 128, 128 + 0x3a]).into_option(), Some(b':'));
    assert_eq!(decode::codepoint([239, 128, 128 + 0x01]).into_option(), Some(0x01));
    assert_eq!(decode::codepoint([239, 128, 128]).into_option(), Some(0));
}

#[test]
fn codepoint_decodes_high_form() {
    assert_eq!(decode::codepoint([239, 129, 0x5c + 64]).into_option(), Some(b'\\'));
    assert_eq!(decode::codepoint([239, 129, b'|' + 64]).into_option(), Some(b'|'));
}

#[test]
fn codepoint_rejects_other_windows() {
    assert_eq!(decode::codepoint([238, 128, 128 + 0x3a]).into_option(), None);
    assert_eq!(decode::codepoint([239, 130, 128 + 0x3a]).into_option(), None);
    // a legal byte is never escaped
    assert_eq!(decode::codepoint([239, 128, 128 + b'a']).into_option(), None);
    // third byte below the offset
    assert_eq!(decode::codepoint([239, 128, 65]).into_option(), None);
    assert_eq!(decode::codepoint([239, 129, 10]).into_option(), None);
    // the backslash has only the high form
    assert_eq!(decode::codepoint([239, 128, 128 + 0x5c]).into_option(), None);
}

#[test]
fn decode_path_passes_short_and_plain_paths() {
    assert_eq!(decoded(b"").unwrap(), b"");
    assert_eq!(decoded(b"/a").unwrap(), b"/a");
    assert_eq!(decoded(b"/home/me").unwrap(), b"/home/me");
}

#[test]
fn decode_path_undoes_escapes() {
    let p = [b'/', b'a', 239, 128, 128 + b'?', b'b', 239, 129, b'\\' + 64];
    assert_eq!(decoded(&p).unwrap(), b"/a?b\\");
}

#[test]
fn decode_path_reports_first_illegal_byte() {
    let e = decoded(b"/a:b|c").unwrap_err();
    assert_eq!(e.byte, b':');
    assert_eq!(e.char_type, WindowsFileNameCharType::Reserved);
    assert_eq!(e.index, 2);
    let e = decoded(b"/a\x01").unwrap_err();
    assert_eq!(e.char_type, WindowsFileNameCharType::Low);
    assert_eq!(e.index, 2);
}

#[test]
fn decode_path_appends_to_buffer() {
    let mut buf = b"/mnt/c".to_vec();
    decode::path(b"/x", &mut buf).unwrap();
    assert_eq!(buf, b"/mnt/c/x");
}

#[test]
fn escaped_bytes_round_trip() {
    for b in 0u8..=255 {
        if !is_escaped(b) {
            continue;
        }
        let mut e = Vec::new();
        encode::byte(b, &mut e);
        assert_eq!(e.len(), 3, "byte {}", b);
        assert_eq!(decoded(&e).unwrap(), vec![b], "byte {}", b);
    }
}

#[test]
fn encodings_never_collide() {
    let mut seen = std::collections::HashSet::new();
    for b in 0u8..=255 {
        let mut e = Vec::new();
        encode::byte(b, &mut e);
        assert!(seen.insert(e), "byte {}", b);
    }
}

#[test]
fn legal_bytes_pass_through() {
    for b in 0u8..=255 {
        if is_escaped(b) {
            continue;
        }
        let mut e = Vec::new();
        encode::byte(b, &mut e);
        assert_eq!(e, vec![b]);
        assert_eq!(decoded(&[b]).unwrap(), vec![b]);
    }
}

#[test]
fn encode_colon_and_backslash() {
    let mut e = Vec::new();
    encode::byte(b':', &mut e);
    assert_eq!(e, vec![0xef, 0x80, 0xba]);
    let mut e = Vec::new();
    encode::byte(b'\\', &mut e);
    assert_eq!(e, vec![0xef, 0x81, 0x9c]);
}

#[test]
fn encode_path_escapes_each_byte() {
    let mut e = Vec::new();
    encode::path(b"/a:b", &mut e);
    assert_eq!(e, vec![b'/', b'a', 0xef, 0x80, 0xba, b'b']);
    assert_eq!(decoded(&e).unwrap(), b"/a:b");
}

#[test]
fn char_types() {
    assert_eq!(WindowsFileNameCharType::from(0u8), WindowsFileNameCharType::Null);
    assert_eq!(WindowsFileNameCharType::from(0x1fu8), WindowsFileNameCharType::Low);
    assert_eq!(WindowsFileNameCharType::from(b'/'), WindowsFileNameCharType::Slash);
    assert_eq!(WindowsFileNameCharType::from(b'\\'), WindowsFileNameCharType::BackSlash);
    assert_eq!(WindowsFileNameCharType::from(b'*'), WindowsFileNameCharType::Reserved);
    assert_eq!(WindowsFileNameCharType::from(b' '), WindowsFileNameCharType::Legal);
    assert_eq!(WindowsFileNameCharType::from(0xffu8), WindowsFileNameCharType::Legal);
}

#[test]
fn with_base_index_moves_offset() {
    let e = IllegalWindowsFileNameCharError::at(b'?', 3).with_base_index(4);
    assert_eq!(e.index, 7);
    assert_eq!(e.byte, b'?');
    assert_eq!(e.char_type, WindowsFileNameCharType::Reserved);
}
