use wslpath::convert::line_sep::LineSep;
use wslpath::convert::path_sep::WindowsPathSep;
use wslpath::convert::win_to_wsl::init::{env_var_value, windows_store_relative, ConvertOptionsError, WindowsStoreRootLookupError};
use wslpath::convert::win_to_wsl::{Options, Root};
use wslpath::convert::wsl::{get_drvfs_mount_points, get_unc_root, MountEntry, MountError};
use wslpath::path_type::PathType;
use std::convert::TryFrom;

#[test]
fn unc_root_of_a_distribution() {
    assert_eq!(get_unc_root(Some(b"Ubuntu".to_vec())).unwrap(), b"//wsl$/Ubuntu");
    assert!(get_unc_root(None).is_err());
}

#[test]
fn store_prefix_is_relative_to_drive_c() {
    assert_eq!(
        windows_store_relative(b"/mnt/c/Users/u/AppData/Local/Packages/X/LocalState/rootfs").unwrap(),
        b"Users/u/AppData/Local/Packages/X/LocalState/rootfs"
    );
    assert!(windows_store_relative(b"/mnt/d/x").is_none());
    assert!(windows_store_relative(b"/mnt/c/").is_none());
}

#[test]
fn env_var_output_loses_its_line_end() {
    assert_eq!(env_var_value(b"me\r\n".to_vec()), b"me");
    assert_eq!(env_var_value(b"me\n".to_vec()), b"me\n");
    assert_eq!(env_var_value(b"me".to_vec()), b"me");
}

#[test]
fn drvfs_mounts_are_filtered() {
    let entries = vec![
        MountEntry { dest: b"/".to_vec(), source: b"/dev/sdb".to_vec(), fstype: b"ext4".to_vec() },
        MountEntry { dest: b"/mnt/c".to_vec(), source: br"C:\".to_vec(), fstype: b"drvfs".to_vec() },
        MountEntry { dest: b"/mnt/d".to_vec(), source: br"D:\".to_vec(), fstype: b"drvfs".to_vec() },
    ];
    let m = get_drvfs_mount_points(entries);
    assert_eq!(m.len(), 2);
    assert_eq!(m[0].wsl, b"/mnt/c");
    assert_eq!(m[0].win, br"C:\");
    assert_eq!(m[1].wsl, b"/mnt/d");
}

#[test]
fn root_errors_come_in_order() {
    let on = Options::default();
    let off = Options { convert_root_loop: false, ..Options::default() };
    let mount_err = || MountError { source: std::io::Error::new(std::io::ErrorKind::Other, "x") };
    assert!(matches!(Root::new(&on, None, Ok(None), Ok(vec![])), Err(ConvertOptionsError::NotWsl(_))));
    assert!(matches!(
        Root::new(&on, Some(b"U".to_vec()), Ok(None), Ok(vec![])),
        Err(ConvertOptionsError::WindowsStoreRootLookup(WindowsStoreRootLookupError::NotFound))
    ));
    assert!(matches!(
        Root::new(&on, Some(b"U".to_vec()), Err(WindowsStoreRootLookupError::NotFound), Err(mount_err())),
        Err(ConvertOptionsError::WindowsStoreRootLookup(WindowsStoreRootLookupError::NotFound))
    ));
    let io = std::io::Error::new(std::io::ErrorKind::Other, "x");
    assert!(matches!(
        Root::new(&on, Some(b"U".to_vec()), Err(WindowsStoreRootLookupError::IoError(io)), Ok(vec![])),
        Err(ConvertOptionsError::WindowsStoreRootLookup(WindowsStoreRootLookupError::IoError(_)))
    ));
    assert!(matches!(
        Root::new(&off, Some(b"U".to_vec()), Ok(None), Err(mount_err())),
        Err(ConvertOptionsError::Mount(_))
    ));
    let root = Root::new(&on, Some(b"U".to_vec()), Ok(Some(b"/mnt/c/p/rootfs".to_vec())), Ok(vec![])).unwrap();
    assert_eq!(root.unc, b"//wsl$/U");
    assert_eq!(root.windows_store.unwrap(), b"p/rootfs");
    let root = Root::new(&off, Some(b"U".to_vec()), Ok(Some(b"/mnt/c/p".to_vec())), Ok(vec![])).unwrap();
    assert!(root.windows_store.is_none());
}

#[test]
fn separators() {
    assert_eq!(LineSep::Null.value(), "\0");
    assert_eq!(LineSep::LF.value(), "\n");
    assert_eq!(LineSep::CRLF.value(), "\r\n");
    assert_eq!(LineSep::default(), LineSep::LF);
    assert_eq!(WindowsPathSep::Slash.value(), b'/');
    assert_eq!(WindowsPathSep::BackSlash.value(), b'\\');
    assert_eq!(WindowsPathSep::default(), WindowsPathSep::BackSlash);
    assert_eq!(WindowsPathSep::try_from('/'), Ok(WindowsPathSep::Slash));
    assert_eq!(WindowsPathSep::try_from(b'\\'), Ok(WindowsPathSep::BackSlash));
    assert_eq!(WindowsPathSep::try_from('x'), Err(()));
}

#[test]
fn path_types() {
    assert!(PathType::WSL.is_wsl());
    assert!(!PathType::WSL.is_windows());
    assert!(PathType::Windows.is_windows());
    assert!(PathType::WindowsForwardSlash.is_windows());
}
