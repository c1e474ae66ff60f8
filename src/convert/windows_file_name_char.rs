use vstd::prelude::*;

use crate::convert::path_sep::WindowsPathSep;

verus! {

/// How a byte stands in a Windows file name.
#[derive(Clone, Copy, Debug, PartialEq, Eq, Structural)]
pub enum WindowsFileNameCharType {
    Null,
    Low,
    Reserved,
    Slash,
    BackSlash,
    Legal,
}

/// The reserved punctuation of Windows file names: `"*:<>?|`.
pub open spec fn is_reserved(c: u8) -> bool {
    c == 0x22 || c == 0x2a || c == 0x3a || c == 0x3c || c == 0x3e || c == 0x3f || c == 0x7c
}

pub open spec fn char_type(c: u8) -> WindowsFileNameCharType {
    if c == 0 {
        WindowsFileNameCharType::Null
    } else if c < 0x20 {
        WindowsFileNameCharType::Low
    } else if c == 0x2f {
        WindowsFileNameCharType::Slash
    } else if c == 0x5c {
        WindowsFileNameCharType::BackSlash
    } else if is_reserved(c) {
        WindowsFileNameCharType::Reserved
    } else {
        WindowsFileNameCharType::Legal
    }
}

impl From<u8> for WindowsFileNameCharType {
    fn from(c: u8) -> (r: Self)
        ensures
            r == char_type(c),
    {
        if c == 0 {
            WindowsFileNameCharType::Null
        } else if c < 0x20 {
            WindowsFileNameCharType::Low
        } else if c == 0x2f {
            WindowsFileNameCharType::Slash
        } else if c == 0x5c {
            WindowsFileNameCharType::BackSlash
        } else if c == 0x22 || c == 0x2a || c == 0x3a || c == 0x3c || c == 0x3e || c == 0x3f
            || c == 0x7c {
            WindowsFileNameCharType::Reserved
        } else {
            WindowsFileNameCharType::Legal
        }
    }
}

impl vstd::std_specs::convert::FromSpecImpl<u8> for WindowsFileNameCharType {
    open spec fn obeys_from_spec() -> bool {
        true
    }

    open spec fn from_spec(c: u8) -> Self {
        char_type(c)
    }
}

pub open spec fn sep_char_type(sep: WindowsPathSep) -> WindowsFileNameCharType {
    match sep {
        WindowsPathSep::Slash => WindowsFileNameCharType::Slash,
        WindowsPathSep::BackSlash => WindowsFileNameCharType::BackSlash,
    }
}

impl From<&WindowsPathSep> for WindowsFileNameCharType {
    fn from(sep: &WindowsPathSep) -> (r: Self)
        ensures
            r == sep_char_type(*sep),
    {
        match sep {
            WindowsPathSep::Slash => WindowsFileNameCharType::Slash,
            WindowsPathSep::BackSlash => WindowsFileNameCharType::BackSlash,
        }
    }
}

impl vstd::std_specs::convert::FromSpecImpl<&WindowsPathSep> for WindowsFileNameCharType {
    open spec fn obeys_from_spec() -> bool {
        true
    }

    open spec fn from_spec(sep: &WindowsPathSep) -> Self {
        sep_char_type(*sep)
    }
}

/// A byte that cannot stand in a Windows file name, and where it stood.
#[derive(Clone, Copy, Debug, PartialEq, Eq, Structural)]
pub struct IllegalWindowsFileNameCharError {
    pub byte: u8,
    pub char_type: WindowsFileNameCharType,
    /// Offset of the byte in the path as it was handed in.
    pub index: usize,
}

impl IllegalWindowsFileNameCharError {
    /// The error for byte `c` at offset `i`.
    pub fn at(c: u8, i: usize) -> (r: Self)
        ensures
            r == (IllegalWindowsFileNameCharError { byte: c, char_type: char_type(c), index: i }),
    {
        IllegalWindowsFileNameCharError { byte: c, char_type: WindowsFileNameCharType::from(c), index: i }
    }

    /// The same error, with its offset moved on by `i`.
    pub fn with_base_index(self, i: usize) -> (r: Self)
        requires
            self.index + i <= usize::MAX,
        ensures
            r == (IllegalWindowsFileNameCharError { index: (self.index + i) as usize, ..self }),
    {
        IllegalWindowsFileNameCharError { index: self.index + i, ..self }
    }
}

} // verus!
