use vstd::prelude::*;

use crate::convert::path_sep::WindowsPathSep;
use crate::convert::wsl::{get_unc_root, unc_prefix, DrvFsMountPoint, MountError, NotWslError};

verus! {

/// How WSL paths are written as Windows paths.
#[derive(Clone, Debug)]
pub struct Options {
    /// The separator that output paths are written with.
    pub sep: WindowsPathSep,
    /// The directory that relative paths are relative to.
    pub base_directory: Option<Vec<u8>>,
    /// Whether paths are made canonical before they are converted; that is
    /// left to the caller, who can reach the file system.
    pub canonicalize: bool,
}

/// Where the WSL namespace is reached from Windows.
#[derive(Clone, Debug)]
pub struct Root {
    /// `//wsl$/<distribution>`.
    pub unc: Vec<u8>,
    pub mounts: Vec<DrvFsMountPoint>,
}

/// A path that cannot be made absolute.
#[derive(Debug)]
pub enum WslPathError {
    NotAbsolute,
    Canonicalization(std::io::Error),
}

/// A converter could not be set up.
#[derive(Debug)]
pub enum ConvertOptionsError {
    NotWsl(NotWslError),
    WslPath(WslPathError),
    Mount(std::io::Error),
}

pub open spec fn is_absolute(p: Seq<u8>) -> bool {
    p.len() > 0 && p[0] == 0x2f
}

impl Options {
    /// Checks the base directory: unless paths are made canonical, it must be
    /// absolute.
    pub fn init(&self) -> (r: Result<(), ConvertOptionsError>)
        ensures
            r is Err <==> (self.base_directory matches Some(b) && !self.canonicalize && !is_absolute(b@)),
            r is Err ==> r matches Err(ConvertOptionsError::WslPath(WslPathError::NotAbsolute)),
    {
        match &self.base_directory {
            Some(b) => if !self.canonicalize && !(b.len() > 0 && b[0] == 0x2f) {
                Err(ConvertOptionsError::WslPath(WslPathError::NotAbsolute))
            } else {
                Ok(())
            },
            None => Ok(()),
        }
    }
}

impl Root {
    /// The root, from the distribution's name and the drvfs mounts.
    pub fn new(distro_name: Option<Vec<u8>>, mounts: Result<Vec<DrvFsMountPoint>, MountError>) -> (r: Result<
        Root,
        ConvertOptionsError,
    >)
        ensures
            distro_name is None ==> r == Err::<Root, ConvertOptionsError>(ConvertOptionsError::NotWsl(NotWslError {})),
            distro_name is Some && mounts is Err ==> r == Err::<Root, ConvertOptionsError>(
                ConvertOptionsError::Mount(mounts->Err_0.source),
            ),
            distro_name is Some && mounts is Ok ==> r is Ok,
            r matches Ok(root) ==> root.unc@ == unc_prefix() + distro_name->Some_0@ && root.mounts@
                == mounts->Ok_0@,
    {
        let unc = match get_unc_root(distro_name) {
            Ok(u) => u,
            Err(e) => {
                return Err(ConvertOptionsError::NotWsl(e));
            },
        };
        match mounts {
            Err(e) => Err(ConvertOptionsError::Mount(e.source)),
            Ok(m) => Ok(Root { unc, mounts: m }),
        }
    }
}

} // verus!
