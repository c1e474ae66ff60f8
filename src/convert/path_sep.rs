use vstd::prelude::*;

use crate::util::enum_arg::{views, EnumArg};

verus! {

/// The separator that Windows paths are written with.
#[derive(Clone, Copy, Debug, PartialEq, Eq, Structural)]
pub enum WindowsPathSep {
    Slash,
    BackSlash,
}

impl WindowsPathSep {
    pub open spec fn spec_value(self) -> u8 {
        match self {
            WindowsPathSep::Slash => 0x2f,
            WindowsPathSep::BackSlash => 0x5c,
        }
    }

    /// The separator byte itself.
    pub fn value(&self) -> (r: u8)
        ensures
            r == self.spec_value(),
    {
        match self {
            WindowsPathSep::Slash => 0x2f,
            WindowsPathSep::BackSlash => 0x5c,
        }
    }
}

impl Default for WindowsPathSep {
    fn default() -> (r: Self)
        ensures
            r == WindowsPathSep::BackSlash,
    {
        WindowsPathSep::BackSlash
    }
}

impl TryFrom<char> for WindowsPathSep {
    type Error = ();

    /// The separator that `c` is, if it is one.
    fn try_from(c: char) -> (r: Result<Self, ()>)
        ensures
            c == '/' ==> r == Ok::<WindowsPathSep, ()>(WindowsPathSep::Slash),
            c == '\\' ==> r == Ok::<WindowsPathSep, ()>(WindowsPathSep::BackSlash),
            c != '/' && c != '\\' ==> r is Err,
    {
        if c == '/' {
            Ok(WindowsPathSep::Slash)
        } else if c == '\\' {
            Ok(WindowsPathSep::BackSlash)
        } else {
            Err(())
        }
    }
}

impl TryFrom<u8> for WindowsPathSep {
    type Error = ();

    /// The separator that byte `c` is, if it is one.
    fn try_from(c: u8) -> (r: Result<Self, ()>)
        ensures
            c == 0x2f ==> r == Ok::<WindowsPathSep, ()>(WindowsPathSep::Slash),
            c == 0x5c ==> r == Ok::<WindowsPathSep, ()>(WindowsPathSep::BackSlash),
            c != 0x2f && c != 0x5c ==> r is Err,
    {
        if c == 0x2f {
            Ok(WindowsPathSep::Slash)
        } else if c == 0x5c {
            Ok(WindowsPathSep::BackSlash)
        } else {
            Err(())
        }
    }
}

impl vstd::std_specs::convert::TryFromSpecImpl<char> for WindowsPathSep {
    open spec fn obeys_try_from_spec() -> bool {
        true
    }

    open spec fn try_from_spec(c: char) -> Result<Self, ()> {
        if c == '/' {
            Ok(WindowsPathSep::Slash)
        } else if c == '\\' {
            Ok(WindowsPathSep::BackSlash)
        } else {
            Err(())
        }
    }
}

impl vstd::std_specs::convert::TryFromSpecImpl<u8> for WindowsPathSep {
    open spec fn obeys_try_from_spec() -> bool {
        true
    }

    open spec fn try_from_spec(c: u8) -> Result<Self, ()> {
        if c == 0x2f {
            Ok(WindowsPathSep::Slash)
        } else if c == 0x5c {
            Ok(WindowsPathSep::BackSlash)
        } else {
            Err(())
        }
    }
}

impl EnumArg for WindowsPathSep {
    open spec fn spec_case_sensitive() -> bool {
        false
    }

    open spec fn spec_variants() -> Seq<Self> {
        seq![WindowsPathSep::Slash, WindowsPathSep::BackSlash]
    }

    open spec fn spec_displays(&self) -> Seq<Seq<char>> {
        match *self {
            WindowsPathSep::Slash => seq!["/"@],
            WindowsPathSep::BackSlash => seq!["\\"@],
        }
    }

    fn case_sensitive() -> (r: bool) {
        false
    }

    fn variants() -> (r: Vec<Self>) {
        let r = vec![WindowsPathSep::Slash, WindowsPathSep::BackSlash];
        assert(r@ =~= seq![WindowsPathSep::Slash, WindowsPathSep::BackSlash]);
        r
    }

    fn displays(&self) -> (r: Vec<&'static str>) {
        match self {
            WindowsPathSep::Slash => {
                let r = vec!["/"];
                assert(views(r@) =~= seq!["/"@]);
                r
            },
            WindowsPathSep::BackSlash => {
                let r = vec!["\\"];
                assert(views(r@) =~= seq!["\\"@]);
                r
            },
        }
    }
}

impl std::str::FromStr for WindowsPathSep {
    type Err = String;

    fn from_str(s: &str) -> Result<Self, String> {
        crate::util::enum_arg::from_str::<WindowsPathSep>(s)
    }
}

} // verus!
