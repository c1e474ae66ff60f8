use vstd::prelude::*;

use crate::convert::{InputPathSeparator, OutputPathSeparator};
use crate::util::enum_arg::{views, EnumArg};

verus! {

/// What ends each path in a list of paths.
#[derive(Clone, Copy, Debug, PartialEq, Eq, Structural)]
pub enum LineSep {
    Null,
    LF,
    CRLF,
}

impl LineSep {
    /// The bytes written after each path.
    pub open spec fn spec_bytes(self) -> Seq<u8> {
        match self {
            LineSep::Null => seq![0u8],
            LineSep::LF => seq![0x0au8],
            LineSep::CRLF => seq![0x0du8, 0x0a],
        }
    }

    /// The separator as text.
    pub fn value(&self) -> (r: &'static str)
        ensures
            r@ == match *self {
                LineSep::Null => seq!['\0'],
                LineSep::LF => seq!['\n'],
                LineSep::CRLF => seq!['\r', '\n'],
            },
    {
        match self {
            LineSep::Null => {
                proof {
                    reveal_strlit("\0");
                }
                "\0"
            },
            LineSep::LF => {
                proof {
                    reveal_strlit("\n");
                }
                "\n"
            },
            LineSep::CRLF => {
                proof {
                    reveal_strlit("\r\n");
                }
                "\r\n"
            },
        }
    }
}

impl Default for LineSep {
    fn default() -> (r: Self)
        ensures
            r == LineSep::LF,
    {
        LineSep::LF
    }
}

impl InputPathSeparator for LineSep {
    open spec fn spec_matches(&self, c: u8) -> bool {
        match *self {
            LineSep::Null => c == 0,
            LineSep::LF => c == 0x0a,
            LineSep::CRLF => c == 0x0d || c == 0x0a,
        }
    }

    fn matches(&self, c: u8) -> (r: bool) {
        match self {
            LineSep::Null => c == 0,
            LineSep::LF => c == 0x0a,
            LineSep::CRLF => c == 0x0d || c == 0x0a,
        }
    }
}

impl OutputPathSeparator for LineSep {
    open spec fn spec_sep(&self) -> Seq<u8> {
        self.spec_bytes()
    }

    fn write_to_buf(&self, buf: &mut Vec<u8>) {
        match self {
            LineSep::Null => buf.push(0),
            LineSep::LF => buf.push(0x0a),
            LineSep::CRLF => {
                buf.push(0x0d);
                buf.push(0x0a);
            },
        }
        proof {
            assert(final(buf)@ =~= old(buf)@ + self.spec_bytes());
        }
    }
}

impl EnumArg for LineSep {
    open spec fn spec_case_sensitive() -> bool {
        false
    }

    open spec fn spec_variants() -> Seq<Self> {
        seq![LineSep::Null, LineSep::LF, LineSep::CRLF]
    }

    open spec fn spec_displays(&self) -> Seq<Seq<char>> {
        match *self {
            LineSep::Null => seq!["null"@, "0"@, "\\0"@],
            LineSep::LF => seq!["LF"@, "\\n"@],
            LineSep::CRLF => seq!["CRLF"@, "\\r\\n"@],
        }
    }

    fn case_sensitive() -> (r: bool) {
        false
    }

    fn variants() -> (r: Vec<Self>) {
        let r = vec![LineSep::Null, LineSep::LF, LineSep::CRLF];
        assert(r@ =~= seq![LineSep::Null, LineSep::LF, LineSep::CRLF]);
        r
    }

    fn displays(&self) -> (r: Vec<&'static str>) {
        match self {
            LineSep::Null => {
                let r = vec!["null", "0", "\\0"];
                assert(views(r@) =~= seq!["null"@, "0"@, "\\0"@]);
                r
            },
            LineSep::LF => {
                let r = vec!["LF", "\\n"];
                assert(views(r@) =~= seq!["LF"@, "\\n"@]);
                r
            },
            LineSep::CRLF => {
                let r = vec!["CRLF", "\\r\\n"];
                assert(views(r@) =~= seq!["CRLF"@, "\\r\\n"@]);
                r
            },
        }
    }
}

impl std::str::FromStr for LineSep {
    type Err = String;

    fn from_str(s: &str) -> Result<Self, String> {
        crate::util::enum_arg::from_str::<LineSep>(s)
    }
}

} // verus!
