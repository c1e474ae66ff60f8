use wslpath::convert::path_sep::WindowsPathSep;
use wslpath::convert::Converter as _;
use wslpath::convert::win_to_wsl::{ConvertError, Converter, Options, Root};
use wslpath::convert::windows_file_name_char::WindowsFileNameCharType;
use wslpath::convert::wsl::DrvFsMountPoint;

fn converter_with(options: Options, store: Option<&str>, mounts: Vec<DrvFsMountPoint>) -> Converter {
    let found = store.map(|s| format!("/mnt/c/{}", s).into_bytes());
    let root = Root::new(&options, Some(b"Ubuntu".to_vec()), Ok(found), Ok(mounts)).unwrap();
    Converter::new(options, root)
}

fn plain() -> Converter {
    let options = Options {
        convert_root_loop: false,
        ..Options::default()
    };
    converter_with(options, None, vec![])
}

fn convert(c: &Converter, p: &str) -> Result<Vec<u8>, ConvertError> {
    c.convert(p.as_bytes())
}

#[test]
fn drive_path_with_backslashes() {
    assert_eq!(convert(&plain(), r"C:\Users\a").unwrap(), b"/mnt/c/Users/a");
}

#[test]
fn bare_drive() {
    assert_eq!(convert(&plain(), "C:").unwrap(), b"/mnt/c");
    assert_eq!(convert(&plain(), "d:").unwrap(), b"/mnt/d");
}

#[test]
fn drive_root() {
    assert_eq!(convert(&plain(), r"C:\").unwrap(), b"/mnt/c/");
}

#[test]
fn unc_path_of_the_distribution() {
    assert_eq!(convert(&plain(), r"\\wsl$\Ubuntu\home\me").unwrap(), b"/home/me");
}

#[test]
fn relative_path_is_parse_error() {
    assert_eq!(convert(&plain(), r"relative\path"), Err(ConvertError::Parse));
    let options = Options {
        sep: WindowsPathSep::Slash,
        convert_root_loop: false,
        use_mount_table: false,
    };
    assert_eq!(convert(&converter_with(options, None, vec![]), "relative/path"), Err(ConvertError::Parse));
}

#[test]
fn relative_path_with_slash_under_backslash_convention() {
    match convert(&plain(), "relative/path") {
        Err(ConvertError::IllegalFileNameChar(e)) => assert_eq!(e.index, 8),
        other => panic!("{:?}", other),
    }
}

#[test]
fn relative_drive_path_is_parse_error() {
    assert_eq!(convert(&plain(), "C:a"), Err(ConvertError::Parse));
}

#[test]
fn non_letter_drive_is_parse_error() {
    assert_eq!(convert(&plain(), r"1:\a"), Err(ConvertError::Parse));
    assert_eq!(convert(&plain(), ""), Err(ConvertError::Parse));
}

#[test]
fn root_loop_is_elided() {
    let options = Options {
        convert_root_loop: true,
        ..Options::default()
    };
    let c = converter_with(options, Some("Packages/X/LocalState/rootfs"), vec![]);
    assert_eq!(convert(&c, r"C:\Packages\X\LocalState\rootfs\etc\passwd").unwrap(), b"/mnt/c/etc/passwd");
    assert_eq!(convert(&c, r"C:\Packages\X\LocalState\rootfs").unwrap(), b"/mnt/c");
    // a longer directory name is no root loop
    assert_eq!(convert(&c, r"C:\Packages\X\LocalState\rootfs2\a").unwrap(), b"/mnt/c/Packages/X/LocalState/rootfs2/a");
    assert_eq!(convert(&c, r"C:\Users\a").unwrap(), b"/mnt/c/Users/a");
}

#[test]
fn verbatim_prefix_is_stripped() {
    assert_eq!(convert(&plain(), r"\\?\C:\a").unwrap(), b"/mnt/c/a");
}

#[test]
fn slash_under_backslash_convention_is_an_error() {
    match convert(&plain(), r"C:\a/b") {
        Err(ConvertError::IllegalFileNameChar(e)) => {
            assert_eq!(e.byte, b'/');
            assert_eq!(e.char_type, WindowsFileNameCharType::Slash);
            assert_eq!(e.index, 4);
        }
        other => panic!("{:?}", other),
    }
}

#[test]
fn slash_convention() {
    let options = Options {
        sep: WindowsPathSep::Slash,
        convert_root_loop: false,
        use_mount_table: false,
    };
    let c = converter_with(options, None, vec![]);
    assert_eq!(convert(&c, "C:/a/b").unwrap(), b"/mnt/c/a/b");
    match convert(&c, r"C:/a\b") {
        Err(ConvertError::IllegalFileNameChar(e)) => {
            assert_eq!(e.char_type, WindowsFileNameCharType::BackSlash);
            assert_eq!(e.index, 4);
        }
        other => panic!("{:?}", other),
    }
}

#[test]
fn illegal_byte_offset_counts_from_the_input_as_given() {
    match convert(&plain(), r"\\?\C:\a|b") {
        Err(ConvertError::IllegalFileNameChar(e)) => {
            assert_eq!(e.byte, b'|');
            assert_eq!(e.index, 8);
        }
        other => panic!("{:?}", other),
    }
    match convert(&plain(), r"\\wsl$\Ubuntu\x<") {
        Err(ConvertError::IllegalFileNameChar(e)) => {
            assert_eq!(e.byte, b'<');
            assert_eq!(e.index, 15);
        }
        other => panic!("{:?}", other),
    }
}

#[test]
fn escapes_are_decoded() {
    let mut p = br"C:\a".to_vec();
    p.extend_from_slice(&[0xef, 0x80, 0xba]);
    assert_eq!(plain().convert(&p).unwrap(), b"/mnt/c/a:");
}

#[test]
fn mount_table_convention() {
    let options = Options {
        sep: WindowsPathSep::BackSlash,
        convert_root_loop: false,
        use_mount_table: true,
    };
    let mounts = vec![DrvFsMountPoint {
        wsl: b"/drives/d".to_vec(),
        win: br"D:\".to_vec(),
    }];
    let c = converter_with(options, None, mounts);
    assert_eq!(convert(&c, r"d:\x").unwrap(), b"/drives/d/x");
    assert_eq!(convert(&c, "D:").unwrap(), b"/drives/d");
    assert_eq!(convert(&c, r"C:\x"), Err(ConvertError::Parse));
}

#[test]
fn convert_into_buf_appends() {
    let mut buf = b"x".to_vec();
    plain().convert_into_buf(br"C:\a", &mut buf).unwrap();
    assert_eq!(buf, b"x/mnt/c/a");
}
