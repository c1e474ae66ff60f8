use vstd::prelude::*;

use crate::convert::bytes::{append, extends, has_prefix, lemma_extends_append};
use crate::convert::path_sep::WindowsPathSep;
use crate::convert::win_to_wsl::decode::{decode_path_at, decode_seq, decode_tail, normal_byte, normalized};
use crate::convert::windows_file_name_char::{IllegalWindowsFileNameCharError, WindowsFileNameCharType};
use crate::convert::wsl::DrvFsMountPoint;
use crate::convert::Converter as PathConverter;
pub use crate::convert::win_to_wsl::init::{Options, Root};

pub mod decode;
pub mod init;

verus! {

/// Why a Windows path could not be converted.
#[derive(Clone, Copy, Debug, PartialEq, Eq, Structural)]
pub enum ConvertError {
    /// The path is neither under the WSL root nor under a drive.
    Parse,
    IllegalFileNameChar(IllegalWindowsFileNameCharError),
}

pub open spec fn is_drive_letter(c: u8) -> bool {
    (0x41 <= c && c <= 0x5a) || (0x61 <= c && c <= 0x7a)
}

pub open spec fn to_lower(c: u8) -> u8 {
    if 0x41 <= c && c <= 0x5a {
        (c + 32) as u8
    } else {
        c
    }
}

/// `//?/`, which marks a verbatim path.
pub open spec fn verbatim_prefix() -> Seq<u8> {
    seq![0x2fu8, 0x2f, 0x3f, 0x2f]
}

/// `/mnt/`, under which drives are mounted by default.
pub open spec fn mnt_prefix() -> Seq<u8> {
    seq![0x2fu8, 0x6d, 0x6e, 0x74, 0x2f]
}

/// Whether `win`, what a drvfs mount mounts, is the root of drive `letter`:
/// `C:`, `C:\` or `C:/`.
pub open spec fn names_drive(win: Seq<u8>, letter: u8) -> bool {
    &&& 2 <= win.len() <= 3
    &&& to_lower(win[0]) == to_lower(letter)
    &&& win[1] == 0x3a
    &&& win.len() == 3 ==> (win[2] == 0x5c || win[2] == 0x2f)
}

/// The mount point of the first mount of drive `letter`.
pub open spec fn table_mount(mounts: Seq<DrvFsMountPoint>, letter: u8) -> Option<Seq<u8>>
    decreases mounts.len(),
{
    if mounts.len() == 0 {
        None
    } else if names_drive(mounts[0].win@, letter) {
        Some(mounts[0].wsl@)
    } else {
        table_mount(mounts.drop_first(), letter)
    }
}

/// The first offset of `p` that holds a slash.
pub open spec fn first_slash(p: Seq<u8>) -> int {
    choose|i: int| 0 <= i < p.len() && p[i] == 0x2f && no_slash_before(p, i)
}

pub open spec fn no_slash_before(p: Seq<u8>, n: int) -> bool {
    forall|j: int| 0 <= j < n ==> #[trigger] p[j] != 0x2f
}

/// A decoded tail after `head`, or its error.
pub open spec fn lift(r: Result<Seq<u8>, IllegalWindowsFileNameCharError>, head: Seq<u8>) -> Result<Seq<u8>, ConvertError> {
    match r {
        Ok(d) => Ok(head + d),
        Err(e) => Err(ConvertError::IllegalFileNameChar(e)),
    }
}

/// Converts absolute Windows paths to paths of the WSL namespace.
pub struct Converter {
    pub options: Options,
    pub root: Root,
}

impl Converter {
    /// Where drive `letter` is mounted.
    pub open spec fn drive_mount(self, letter: u8) -> Option<Seq<u8>> {
        if self.options.use_mount_table {
            table_mount(self.root.mounts@, letter)
        } else {
            Some(mnt_prefix() + seq![to_lower(letter)])
        }
    }

    /// How many bytes of `t`, a path after `C:/`, lead back to the WSL root
    /// and are dropped together with the slash before them.
    pub open spec fn loop_skip(self, t: Seq<u8>) -> int {
        match self.root.windows_store {
            Some(w) => if has_prefix(t, w@) && (t.len() == w@.len() || t[w@.len() as int] == 0x2f) {
                w@.len() + 1int
            } else {
                0
            },
            None => 0,
        }
    }

    /// The conversion of `q`, a path whose separator is the slash.
    pub open spec fn raw_spec(self, q: Seq<u8>) -> Result<Seq<u8>, ConvertError> {
        let v: int = if has_prefix(q, verbatim_prefix()) { 4 } else { 0 };
        let r = q.subrange(v, q.len() as int);
        let unc = self.root.unc@;
        if has_prefix(r, unc) {
            lift(decode_path_at(q.subrange(v + unc.len(), q.len() as int), v + unc.len()), Seq::empty())
        } else if r.len() >= 2 && is_drive_letter(r[0]) && r[1] == 0x3a {
            if r.len() > 2 && r[2] != 0x2f {
                Err(ConvertError::Parse)
            } else {
                match self.drive_mount(r[0]) {
                    None => Err(ConvertError::Parse),
                    Some(m) => if r.len() == 2 {
                        Ok(m)
                    } else {
                        let s = v + 2 + self.loop_skip(q.subrange(v + 3, q.len() as int));
                        lift(decode_path_at(q.subrange(s, q.len() as int), s), m)
                    },
                }
            }
        } else {
            Err(ConvertError::Parse)
        }
    }

    /// Makes a converter over `root`.
    pub fn new(options: Options, root: Root) -> (r: Converter)
        ensures
            r.options == options,
            r.root == root,
    {
        Converter { options, root }
    }
}

impl WindowsPathSep {
    /// Checks that `path` is written with this separator: where it is the
    /// backslash, a slash in the path is an error at its offset.
    pub fn check_sep(&self, path: &[u8]) -> (r: Result<(), IllegalWindowsFileNameCharError>)
        ensures
            r is Ok <==> (*self == WindowsPathSep::Slash || no_slash_before(path@, path@.len() as int)),
            r matches Err(e) ==> e == (IllegalWindowsFileNameCharError {
                byte: 0x2f,
                char_type: WindowsFileNameCharType::Slash,
                index: first_slash(path@) as usize,
            }),
    {
        match self {
            WindowsPathSep::Slash => Ok(()),
            WindowsPathSep::BackSlash => {
                let mut i: usize = 0;
                while i < path.len()
                    invariant
                        i <= path@.len(),
                        *self == WindowsPathSep::BackSlash,
                        no_slash_before(path@, i as int),
                    decreases path@.len() - i,
                {
                    if path[i] == 0x2f {
                        proof {
                            assert(path@[i as int] == 0x2f);
                            assert(first_slash(path@) == i);
                            assert(!no_slash_before(path@, path@.len() as int));
                        }
                        return Err(IllegalWindowsFileNameCharError::at(0x2f, i));
                    }
                    i = i + 1;
                }
                Ok(())
            },
        }
    }
}

/// Whether `path[at..]`, read with `sep` as the separator, starts with `prefix`.
fn prefix_at(path: &[u8], sep: WindowsPathSep, at: usize, prefix: &[u8]) -> (r: bool)
    requires
        at <= path@.len(),
    ensures
        r == has_prefix(normalized(path@, sep).subrange(at as int, path@.len() as int), prefix@),
{
    let ghost t = normalized(path@, sep).subrange(at as int, path@.len() as int);
    if path.len() - at < prefix.len() {
        return false;
    }
    let n = path.len();
    let mut k: usize = 0;
    while k < prefix.len()
        invariant
            k <= prefix@.len(),
            n == path@.len(),
            at + prefix@.len() <= n,
            t == normalized(path@, sep).subrange(at as int, path@.len() as int),
            forall|j: int| 0 <= j < k ==> t[j] == prefix@[j],
        decreases prefix@.len() - k,
    {
        if normal_byte(sep, path[at + k]) != prefix[k] {
            proof {
                assert(t.subrange(0, prefix@.len() as int)[k as int] != prefix@[k as int]);
            }
            return false;
        }
        k = k + 1;
    }
    proof {
        assert(t.subrange(0, prefix@.len() as int) =~= prefix@);
    }
    true
}

fn lower(c: u8) -> (r: u8)
    ensures
        r == to_lower(c),
{
    if 0x41 <= c && c <= 0x5a {
        c + 32
    } else {
        c
    }
}

fn names_drive_exec(win: &[u8], letter: u8) -> (r: bool)
    ensures
        r == names_drive(win@, letter),
{
    if win.len() < 2 || win.len() > 3 {
        return false;
    }
    if lower(win[0]) != lower(letter) || win[1] != 0x3a {
        return false;
    }
    win.len() == 2 || win[2] == 0x5c || win[2] == 0x2f
}

impl Converter {
    /// The mount, among those of the table, of drive `letter`.
    fn table_mount_index(&self, letter: u8) -> (r: Option<usize>)
        ensures
            match r {
                Some(i) => i < self.root.mounts@.len() && table_mount(self.root.mounts@, letter) == Some(
                    self.root.mounts@[i as int].wsl@,
                ),
                None => table_mount(self.root.mounts@, letter) is None,
            },
    {
        let mounts = &self.root.mounts;
        let mut i: usize = 0;
        assert(mounts@.subrange(0, mounts@.len() as int) =~= mounts@);
        while i < mounts.len()
            invariant
                i <= mounts@.len(),
                mounts == &self.root.mounts,
                table_mount(mounts@, letter) == table_mount(mounts@.subrange(i as int, mounts@.len() as int), letter),
            decreases mounts@.len() - i,
        {
            let ghost rest = mounts@.subrange(i as int, mounts@.len() as int);
            proof {
                assert(rest.drop_first() =~= mounts@.subrange(i + 1, mounts@.len() as int));
                assert(rest[0] == mounts@[i as int]);
            }
            if names_drive_exec(mounts[i].win.as_slice(), letter) {
                return Some(i);
            }
            i = i + 1;
        }
        None
    }

    /// The offset from which the rest of `path` is decoded, where `at` follows
    /// `C:/`: past a root loop that follows, else at that slash.
    fn fix_root_loop(&self, path: &[u8], at: usize) -> (r: usize)
        requires
            1 <= at <= path@.len(),
        ensures
            r == at - 1 + self.loop_skip(normalized(path@, self.options.sep).subrange(at as int, path@.len() as int)),
            r <= path@.len(),
    {
        match &self.root.windows_store {
            None => at - 1,
            Some(w) => {
                let sep = self.options.sep;
                let n = path.len();
                if prefix_at(path, sep, at, w.as_slice()) {
                    let end = at + w.len();
                    if end == n || normal_byte(sep, path[end]) == 0x2f {
                        end
                    } else {
                        at - 1
                    }
                } else {
                    at - 1
                }
            },
        }
    }

    /// Converts `path`, read with the slash as the separator, onto the end of `buf`.
    fn raw_convert(&self, path: &[u8], buf: &mut Vec<u8>) -> (r: Result<(), ConvertError>)
        requires
            self.wf(),
        ensures
            match self.raw_spec(normalized(path@, self.options.sep)) {
                Ok(out) => r is Ok && final(buf)@ == old(buf)@ + out,
                Err(e) => r == Err::<(), ConvertError>(e),
            },
            extends(final(buf)@, old(buf)@),
    {
        let sep = self.options.sep;
        let len = path.len();
        let ghost q = normalized(path@, sep);
        proof {
            lemma_extends_append(buf@, Seq::empty());
        }
        let v: usize = if len >= 4 && normal_byte(sep, path[0]) == 0x2f && normal_byte(sep, path[1]) == 0x2f
            && normal_byte(sep, path[2]) == 0x3f && normal_byte(sep, path[3]) == 0x2f {
            4
        } else {
            0
        };
        proof {
            if v == 4 {
                assert(q.subrange(0, 4) =~= verbatim_prefix());
            } else if has_prefix(q, verbatim_prefix()) {
                assert(q.subrange(0, 4)[0] == verbatim_prefix()[0]);
                assert(q.subrange(0, 4)[1] == verbatim_prefix()[1]);
                assert(q.subrange(0, 4)[2] == verbatim_prefix()[2]);
                assert(q.subrange(0, 4)[3] == verbatim_prefix()[3]);
            }
        }
        let ghost rest = q.subrange(v as int, len as int);
        if prefix_at(path, sep, v, self.root.unc.as_slice()) {
            let start = v + self.root.unc.len();
            return match decode_tail(path, start, sep, buf) {
                Ok(()) => {
                    proof {
                        lemma_extends_append(old(buf)@, decode_seq(q.subrange(start as int, len as int)));
                    }
                    Ok(())
                },
                Err(e) => Err(ConvertError::IllegalFileNameChar(e)),
            };
        }
        if len - v < 2 {
            return Err(ConvertError::Parse);
        }
        let letter = normal_byte(sep, path[v]);
        if !((0x41 <= letter && letter <= 0x5a) || (0x61 <= letter && letter <= 0x7a)) || normal_byte(sep, path[v + 1]) != 0x3a {
            return Err(ConvertError::Parse);
        }
        if len - v > 2 && normal_byte(sep, path[v + 2]) != 0x2f {
            return Err(ConvertError::Parse);
        }
        assert(rest[0] == letter);
        if self.options.use_mount_table {
            match self.table_mount_index(letter) {
                None => {
                    return Err(ConvertError::Parse);
                },
                Some(i) => {
                    append(buf, self.root.mounts[i].wsl.as_slice());
                },
            }
        } else {
            buf.push(0x2f);
            buf.push(0x6d);
            buf.push(0x6e);
            buf.push(0x74);
            buf.push(0x2f);
            buf.push(lower(letter));
        }
        let ghost head = self.drive_mount(letter)->Some_0;
        assert(buf@ =~= old(buf)@ + head);
        assert(buf@.subrange(0, old(buf)@.len() as int) =~= old(buf)@);
        if len - v == 2 {
            return Ok(());
        }
        let start = self.fix_root_loop(path, v + 3);
        let ghost mid = buf@;
        match decode_tail(path, start, sep, buf) {
            Ok(()) => {
                assert(buf@ =~= old(buf)@ + (head + decode_seq(q.subrange(start as int, len as int))));
                proof {
                    lemma_extends_append(old(buf)@, head + decode_seq(q.subrange(start as int, len as int)));
                }
                Ok(())
            },
            Err(e) => Err(ConvertError::IllegalFileNameChar(e)),
        }
    }

    /// Converts the absolute Windows path `path`.
    pub fn convert(&self, path: &[u8]) -> (r: Result<Vec<u8>, ConvertError>)
        requires
            self.wf(),
        ensures
            match r {
                Ok(v) => self.convert_spec(path@) == Ok::<Seq<u8>, ConvertError>(v@),
                Err(e) => self.convert_spec(path@) == Err::<Seq<u8>, ConvertError>(e),
            },
    {
        let mut buf: Vec<u8> = Vec::new();
        match self.convert_into_buf(path, &mut buf) {
            Ok(()) => {
                assert(buf@ =~= Seq::<u8>::empty() + buf@);
                Ok(buf)
            },
            Err(e) => Err(e),
        }
    }
}

impl PathConverter for Converter {
    type Error = ConvertError;

    open spec fn wf(&self) -> bool {
        self.root.wf()
    }

    /// The conversion of the absolute Windows path `p`.
    open spec fn convert_spec(&self, p: Seq<u8>) -> Result<Seq<u8>, ConvertError> {
        if self.options.sep == WindowsPathSep::BackSlash && !no_slash_before(p, p.len() as int) {
            Err(ConvertError::IllegalFileNameChar(IllegalWindowsFileNameCharError {
                byte: 0x2f,
                char_type: WindowsFileNameCharType::Slash,
                index: first_slash(p) as usize,
            }))
        } else {
            self.raw_spec(normalized(p, self.options.sep))
        }
    }

    /// Converts the absolute Windows path `path` onto the end of `buf`. On an
    /// error, what stands in `buf` after its old content is unspecified.
        fn convert_into_buf(&self, path: &[u8], buf: &mut Vec<u8>) -> (r: Result<(), ConvertError>)
    {
        proof {
            lemma_extends_append(buf@, Seq::empty());
        }
        match self.options.sep.check_sep(path) {
            Err(e) => {
                return Err(ConvertError::IllegalFileNameChar(e));
            },
            Ok(()) => {},
        }
        self.raw_convert(path, buf)
    }
}

} // verus!
