use wslpath::convert::bulk::convert_all;
use wslpath::convert::line_sep::LineSep;
use wslpath::convert::path_sep::WindowsPathSep;
use wslpath::convert::wsl::MountError;
use wslpath::convert::PathSeparators;
use wslpath::convert::Converter as _;
use wslpath::convert::wsl_to_win::{ConvertError, ConvertOptionsError, Converter, Options, Root, WslPathError};

fn converter(sep: WindowsPathSep, base: Option<&[u8]>) -> Converter {
    let root = Root::new(Some(b"Ubuntu".to_vec()), Ok(vec![])).unwrap();
    let options = Options {
        sep,
        base_directory: base.map(|b| b.to_vec()),
        canonicalize: false,
    };
    Converter::new(options, root)
}

#[test]
fn drive_path_to_windows() {
    let c = converter(WindowsPathSep::BackSlash, None);
    assert_eq!(c.convert(b"/mnt/c/Users/a").unwrap(), br"C:\Users\a");
    assert_eq!(c.convert(b"/mnt/c").unwrap(), br"C:\");
    let c = converter(WindowsPathSep::Slash, None);
    assert_eq!(c.convert(b"/mnt/d/x").unwrap(), b"D:/x");
}

#[test]
fn other_path_goes_under_the_distribution() {
    let c = converter(WindowsPathSep::BackSlash, None);
    assert_eq!(c.convert(b"/home/me").unwrap(), br"\\wsl$\Ubuntu\home\me");
    assert_eq!(c.convert(b"/").unwrap(), br"\\wsl$\Ubuntu\");
}

#[test]
fn illegal_bytes_are_escaped() {
    let c = converter(WindowsPathSep::BackSlash, None);
    let mut expected = br"\\wsl$\Ubuntu\a".to_vec();
    expected.extend_from_slice(&[0xef, 0x80, 0xba]);
    assert_eq!(c.convert(b"/a:").unwrap(), expected);
}

#[test]
fn relative_paths_need_a_base() {
    let c = converter(WindowsPathSep::BackSlash, None);
    assert!(matches!(c.convert(b"a/b"), Err(ConvertError::WslPath(WslPathError::NotAbsolute))));
    let c = converter(WindowsPathSep::BackSlash, Some(b"/mnt/c/work"));
    assert_eq!(c.convert(b"a/b").unwrap(), br"C:\work\a\b");
    let c = converter(WindowsPathSep::BackSlash, Some(b"work"));
    assert!(matches!(c.convert(b"a"), Err(ConvertError::WslPath(WslPathError::NotAbsolute))));
}

#[test]
fn nul_byte_is_an_error() {
    let c = converter(WindowsPathSep::BackSlash, None);
    assert!(matches!(c.convert(b"/a\0b\0"), Err(ConvertError::NullByte { index: 2 })));
    let mut buf = b"x".to_vec();
    assert!(c.convert_into_buf(b"/\0", &mut buf).is_err());
    assert_eq!(buf, b"x");
}

#[test]
fn options_and_root_checks() {
    let o = Options { sep: WindowsPathSep::BackSlash, base_directory: Some(b"rel".to_vec()), canonicalize: false };
    assert!(matches!(o.init(), Err(ConvertOptionsError::WslPath(WslPathError::NotAbsolute))));
    let o = Options { sep: WindowsPathSep::BackSlash, base_directory: Some(b"rel".to_vec()), canonicalize: true };
    assert!(o.init().is_ok());
    assert!(matches!(Root::new(None, Ok(vec![])), Err(ConvertOptionsError::NotWsl(_))));
    let failed = MountError { source: std::io::Error::new(std::io::ErrorKind::Other, "x") };
    assert!(matches!(Root::new(Some(b"U".to_vec()), Err(failed)), Err(ConvertOptionsError::Mount(_))));
}

#[test]
fn lists_convert_in_the_windows_direction_too() {
    let c = converter(WindowsPathSep::BackSlash, None);
    let seps = PathSeparators { input: LineSep::LF, output: LineSep::LF };
    let r = convert_all(&c, b"/mnt/c/a\nrel\n/home\n/tail", &seps);
    assert_eq!(r.paths, b"C:\\a\n\n\\\\wsl$\\Ubuntu\\home\n".to_vec());
    assert_eq!(r.errors.len(), 1);
    assert_eq!(r.errors[0].index, 1);
    assert_eq!(r.remainder_index, 19);
}
