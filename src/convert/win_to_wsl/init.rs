use vstd::prelude::*;

use crate::convert::bytes::{append, has_prefix};
use crate::convert::path_sep::WindowsPathSep;
use crate::convert::wsl::{get_unc_root, unc_prefix, DrvFsMountPoint, MountError, NotWslError};

verus! {

/// A Windows environment variable could not be read.
#[derive(Debug)]
pub struct WindowsEnvVarError {
    pub var: String,
    pub source: std::io::Error,
}

/// The install directory of the distribution's root could not be found.
#[derive(Debug)]
pub enum WindowsStoreRootLookupError {
    NotFound,
    WindowsEnvVar(WindowsEnvVarError),
    LocalAppDataNotFound(std::io::Error),
    IoError(std::io::Error),
}

/// A converter could not be set up.
#[derive(Debug)]
pub enum ConvertOptionsError {
    NotWsl(NotWslError),
    WindowsStoreRootLookup(WindowsStoreRootLookupError),
    Mount(MountError),
}

/// How Windows paths are read and where drives are looked up.
#[derive(Clone, Copy, Debug, PartialEq, Eq, Structural)]
pub struct Options {
    /// The separator that input paths are written with.
    pub sep: WindowsPathSep,
    /// Whether a path that leads back to the WSL root through its install
    /// directory under `C:` has that detour elided.
    pub convert_root_loop: bool,
    /// Whether a drive is found in the drvfs mount table rather than at
    /// `/mnt/<letter>`.
    pub use_mount_table: bool,
}

impl Default for Options {
    fn default() -> (r: Self)
        ensures
            r == (Options { sep: WindowsPathSep::BackSlash, convert_root_loop: true, use_mount_table: false }),
    {
        Options { sep: WindowsPathSep::BackSlash, convert_root_loop: true, use_mount_table: false }
    }
}

/// Where paths of the Windows namespace lead in the WSL namespace.
#[derive(Clone, Debug)]
pub struct Root {
    /// `//wsl$/<distribution>`: the Windows path of the WSL root.
    pub unc: Vec<u8>,
    /// The install directory of the distribution's root file system, relative
    /// to `C:\`, when root loops are elided.
    pub windows_store: Option<Vec<u8>>,
    /// The drvfs mounts.
    pub mounts: Vec<DrvFsMountPoint>,
}

/// `/mnt/c/`, where drive `C:` is mounted.
pub open spec fn mnt_c() -> Seq<u8> {
    seq![0x2fu8, 0x6d, 0x6e, 0x74, 0x2f, 0x63, 0x2f]
}

/// The root loop prefix for an install directory found at `found`: the
/// directory relative to `/mnt/c/`, if it lies under it.
pub open spec fn store_prefix(found: Seq<u8>) -> Option<Seq<u8>> {
    if has_prefix(found, mnt_c()) && found.len() > mnt_c().len() {
        Some(found.subrange(mnt_c().len() as int, found.len() as int))
    } else {
        None
    }
}

/// `found`, an install directory under `/mnt/c/`, relative to `/mnt/c/`.
pub fn windows_store_relative(found: &[u8]) -> (r: Option<Vec<u8>>)
    ensures
        match r {
            Some(v) => store_prefix(found@) == Some(v@),
            None => store_prefix(found@) is None,
        },
{
    let n = found.len();
    if n <= 7 {
        return None;
    }
    if !(found[0] == 0x2f && found[1] == 0x6d && found[2] == 0x6e && found[3] == 0x74 && found[4] == 0x2f
        && found[5] == 0x63 && found[6] == 0x2f) {
        proof {
            if has_prefix(found@, mnt_c()) {
                assert(found@.subrange(0, 7)[0] == found@[0]);
                assert(found@.subrange(0, 7)[1] == found@[1]);
                assert(found@.subrange(0, 7)[2] == found@[2]);
                assert(found@.subrange(0, 7)[3] == found@[3]);
                assert(found@.subrange(0, 7)[4] == found@[4]);
                assert(found@.subrange(0, 7)[5] == found@[5]);
                assert(found@.subrange(0, 7)[6] == found@[6]);
            }
        }
        return None;
    }
    assert(found@.subrange(0, 7) =~= mnt_c());
    let mut rel: Vec<u8> = Vec::new();
    append(&mut rel, vstd::slice::slice_subrange(found, 7, n));
    assert(rel@ =~= Seq::<u8>::empty() + found@.subrange(7, n as int));
    Some(rel)
}

/// The value that `cmd.exe` echoed for an environment variable: its output
/// without the line end that follows it.
pub fn env_var_value(mut stdout: Vec<u8>) -> (r: Vec<u8>)
    ensures
        stdout@.len() >= 2 && stdout@[stdout@.len() - 2] == 0x0d && stdout@.last() == 0x0a ==> r@
            == stdout@.subrange(0, stdout@.len() - 2),
        !(stdout@.len() >= 2 && stdout@[stdout@.len() - 2] == 0x0d && stdout@.last() == 0x0a) ==> r@ == stdout@,
{
    let n = stdout.len();
    if n >= 2 && stdout[n - 2] == 0x0d && stdout[n - 1] == 0x0a {
        stdout.truncate(n - 2);
    }
    stdout
}

/// The root loop prefix that a lookup of the install directory gave.
pub open spec fn found_prefix<E>(windows_store: Result<Option<Vec<u8>>, E>) -> Option<Seq<u8>> {
    match windows_store {
        Ok(Some(f)) => store_prefix(f@),
        _ => None,
    }
}

/// Whether the lookup of the install directory gave what `options` need.
pub open spec fn store_ready<E>(options: Options, windows_store: Result<Option<Vec<u8>>, E>) -> bool {
    !options.convert_root_loop || found_prefix(windows_store) is Some
}

impl Root {
    pub open spec fn wf(&self) -> bool {
        &&& self.unc@.len() > 0
        &&& self.windows_store matches Some(w) ==> w@.len() > 0
    }

    /// The root for `options`, from what the system said: the distribution's
    /// name, the install directory of its root (looked up only where root
    /// loops are elided) and the drvfs mounts. The first of these to have
    /// failed gives the error.
    pub fn new(
        options: &Options,
        distro_name: Option<Vec<u8>>,
        windows_store: Result<Option<Vec<u8>>, WindowsStoreRootLookupError>,
        mounts: Result<Vec<DrvFsMountPoint>, MountError>,
    ) -> (r: Result<Root, ConvertOptionsError>)
        ensures
            distro_name is None ==> r == Err::<Root, ConvertOptionsError>(ConvertOptionsError::NotWsl(NotWslError {})),
            distro_name is Some && options.convert_root_loop && windows_store is Err ==> r == Err::<
                Root,
                ConvertOptionsError,
            >(ConvertOptionsError::WindowsStoreRootLookup(windows_store->Err_0)),
            distro_name is Some && options.convert_root_loop && windows_store is Ok && found_prefix(windows_store)
                is None ==> r matches Err(
                ConvertOptionsError::WindowsStoreRootLookup(WindowsStoreRootLookupError::NotFound),
            ),
            distro_name is Some && store_ready(*options, windows_store) && mounts is Err ==> r == Err::<
                Root,
                ConvertOptionsError,
            >(ConvertOptionsError::Mount(mounts->Err_0)),
            distro_name is Some && store_ready(*options, windows_store) && mounts is Ok ==> r is Ok,
            r matches Ok(root) ==> {
                &&& root.wf()
                &&& root.unc@ == unc_prefix() + distro_name->Some_0@
                &&& root.mounts@ == mounts->Ok_0@
                &&& match root.windows_store {
                    Some(p) => options.convert_root_loop && found_prefix(windows_store) == Some(p@),
                    None => !options.convert_root_loop,
                }
            },
    {
        let unc = match get_unc_root(distro_name) {
            Ok(u) => u,
            Err(e) => {
                return Err(ConvertOptionsError::NotWsl(e));
            },
        };
        let store = if options.convert_root_loop {
            match windows_store {
                Err(e) => {
                    return Err(ConvertOptionsError::WindowsStoreRootLookup(e));
                },
                Ok(None) => {
                    return Err(ConvertOptionsError::WindowsStoreRootLookup(WindowsStoreRootLookupError::NotFound));
                },
                Ok(Some(found)) => match windows_store_relative(found.as_slice()) {
                    None => {
                        return Err(
                            ConvertOptionsError::WindowsStoreRootLookup(WindowsStoreRootLookupError::NotFound),
                        );
                    },
                    Some(rel) => Some(rel),
                },
            }
        } else {
            None
        };
        match mounts {
            Err(e) => Err(ConvertOptionsError::Mount(e)),
            Ok(m) => Ok(Root { unc, windows_store: store, mounts: m }),
        }
    }
}

} // verus!
