use vstd::prelude::*;

verus! {

/// The namespace that a path is written in.
#[derive(Clone, Copy, Debug, PartialEq, Eq, Structural)]
pub enum PathType {
    WSL,
    Windows,
    WindowsForwardSlash,
}

impl PathType {
    pub fn is_wsl(&self) -> (r: bool)
        ensures
            r == (*self == PathType::WSL),
    {
        *self == PathType::WSL
    }

    pub fn is_windows(&self) -> (r: bool)
        ensures
            r == (*self != PathType::WSL),
    {
        !self.is_wsl()
    }
}

} // verus!
