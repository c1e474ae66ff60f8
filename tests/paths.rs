use std::str::FromStr;
use wslpath::convert::line_sep::LineSep;
use wslpath::convert::path_sep::WindowsPathSep;
use wslpath::util::enum_arg::{from_str, str_variants, EnumArg};
use wslpath::wsl_path::{is_wsl_windows_abs_path, is_wsl_windows_path, wsl_to_windows_path, path_components, wsl_to_windows_abs_path};

#[test]
fn drive_paths_are_recognised() {
    assert!(is_wsl_windows_abs_path(b"/mnt/c/Users"));
    assert!(is_wsl_windows_abs_path(b"/mnt/c"));
    assert!(is_wsl_windows_abs_path(b"//mnt/./d/"));
    assert!(!is_wsl_windows_abs_path(b"/mnt"));
    assert!(!is_wsl_windows_abs_path(b"/home/me"));
    assert!(!is_wsl_windows_abs_path(b"/mnt/c1/x"));
}

#[test]
fn drive_paths_in_windows_form() {
    assert_eq!(wsl_to_windows_abs_path(b"/mnt/c/a/b").unwrap(), br"C:\a\b");
    assert_eq!(wsl_to_windows_abs_path(b"/mnt/c").unwrap(), br"C:\");
    assert_eq!(wsl_to_windows_abs_path(b"/mnt/d//x/./y/").unwrap(), br"D:\x\y");
    assert!(wsl_to_windows_abs_path(b"/etc/passwd").is_none());
}

#[test]
fn components_drop_empty_and_dot() {
    let cs = path_components(b"/a//./b/../c/");
    assert_eq!(cs, vec![b"a".to_vec(), b"b".to_vec(), b"..".to_vec(), b"c".to_vec()]);
    assert!(path_components(b"/").is_empty());
}

#[test]
fn separators_parse_from_text() {
    assert_eq!(LineSep::from_str("lf").unwrap(), LineSep::LF);
    assert_eq!(LineSep::from_str("NULL").unwrap(), LineSep::Null);
    assert_eq!(LineSep::from_str("0").unwrap(), LineSep::Null);
    assert_eq!(LineSep::from_str(r"\r\n").unwrap(), LineSep::CRLF);
    assert_eq!(WindowsPathSep::from_str(r"\").unwrap(), WindowsPathSep::BackSlash);
    assert_eq!(from_str::<WindowsPathSep>("/").unwrap(), WindowsPathSep::Slash);
}

#[test]
fn unknown_separator_lists_the_choices() {
    assert_eq!(
        LineSep::from_str("tab").unwrap_err(),
        r"tab must be one of [null, 0, \0, LF, \n, CRLF, \r\n]"
    );
    assert_eq!(WindowsPathSep::from_str("|").unwrap_err(), r"| must be one of [/, \]");
}

#[test]
fn enum_arg_texts() {
    assert_eq!(str_variants::<WindowsPathSep>(), vec!["/", r"\"]);
    assert_eq!(LineSep::CRLF.displays()[0], "CRLF");
    assert!(LineSep::CRLF.matches("crlf"));
    assert!(!LineSep::CRLF.matches("crl"));
    assert!(!LineSep::case_sensitive());
    assert_eq!(LineSep::variants(), vec![LineSep::Null, LineSep::LF, LineSep::CRLF]);
}

#[test]
fn relative_paths_are_judged_by_the_current_directory() {
    assert!(is_wsl_windows_path(b"a/b", b"/mnt/c/work"));
    assert!(!is_wsl_windows_path(b"a/b", b"/home"));
    assert!(!is_wsl_windows_path(b"/home", b"/mnt/c"));
}

#[test]
fn windows_form_of_any_path() {
    assert_eq!(wsl_to_windows_path(b"/mnt/c/a", b"/home").unwrap(), br"C:\a");
    assert_eq!(wsl_to_windows_path(b"a//b/./c", b"/mnt/c/work").unwrap(), br"a\b\c");
    assert_eq!(wsl_to_windows_path(b"./a", b"/mnt/c/work").unwrap(), br".\a");
    assert_eq!(wsl_to_windows_path(b".", b"/mnt/c").unwrap(), b".");
    assert!(wsl_to_windows_path(b"a", b"/home").is_none());
    assert!(wsl_to_windows_path(b"/home", b"/mnt/c").is_none());
}
