use vstd::prelude::*;

use crate::convert::bytes::{append, lemma_extends_append};
use crate::convert::wsl_to_win::encode::encode_seq;
use crate::convert::Converter as PathConverter;
pub use crate::convert::wsl_to_win::init::{is_absolute, ConvertOptionsError, Options, Root, WslPathError};
use crate::wsl_path::{component_views, components, drive_of, get_drive, path_components};

pub mod encode;
pub mod init;

verus! {

/// Why a WSL path could not be converted.
#[derive(Debug)]
pub enum ConvertError {
    WslPath(WslPathError),
    NullByte { index: usize },
}

pub open spec fn no_nul_before(p: Seq<u8>, n: int) -> bool {
    forall|j: int| 0 <= j < n ==> #[trigger] p[j] != 0
}

/// The offset of the first NUL byte of `p`.
pub open spec fn first_nul(p: Seq<u8>) -> int {
    choose|i: int| 0 <= i < p.len() && p[i] == 0 && no_nul_before(p, i)
}

/// The components, each encoded, joined with `sep`.
pub open spec fn encoded_joined(cs: Seq<Seq<u8>>, sep: u8) -> Seq<u8>
    decreases cs.len(),
{
    if cs.len() == 0 {
        Seq::empty()
    } else if cs.len() == 1 {
        encode_seq(cs[0])
    } else {
        encoded_joined(cs.drop_last(), sep) + seq![sep] + encode_seq(cs.last())
    }
}

/// `p` with each slash written as `sep`.
pub open spec fn with_sep(p: Seq<u8>, sep: u8) -> Seq<u8> {
    p.map_values(|c: u8| if c == 0x2f { sep } else { c })
}

/// Converts absolute WSL paths to Windows paths.
pub struct Converter {
    pub options: Options,
    pub root: Root,
}

impl Converter {
    /// `p` made absolute against the base directory, if it has to be and can
    /// be: the base directory must be absolute itself.
    pub open spec fn absolute_of(self, p: Seq<u8>) -> Option<Seq<u8>> {
        if is_absolute(p) {
            Some(p)
        } else {
            match self.options.base_directory {
                Some(b) => if is_absolute(b@) {
                    Some(b@ + seq![0x2fu8] + p)
                } else {
                    None
                },
                None => None,
            }
        }
    }

    /// The Windows form of the absolute path `a`: under a drive's mount point
    /// the drive and the components after it, else the components under the
    /// distribution's root; each component encoded.
    pub open spec fn windows_spec(self, a: Seq<u8>) -> Seq<u8> {
        let s = self.options.sep.spec_value();
        let cs = components(a);
        match drive_of(a) {
            Some(d) => d + seq![0x3au8, s] + encoded_joined(cs.subrange(2, cs.len() as int), s),
            None => with_sep(self.root.unc@, s) + seq![s] + encoded_joined(cs, s),
        }
    }

    /// A converter over `root`.
    pub fn new(options: Options, root: Root) -> (r: Converter)
        ensures
            r.options == options,
            r.root == root,
    {
        Converter { options, root }
    }

    /// Appends the components `cs[from..]`, each encoded, joined with `sep`.
    fn push_components(cs: &Vec<Vec<u8>>, from: usize, sep: u8, buf: &mut Vec<u8>)
        requires
            from <= cs@.len(),
        ensures
            final(buf)@ == old(buf)@ + encoded_joined(
                component_views(cs@).subrange(from as int, cs@.len() as int),
                sep,
            ),
    {
        let ghost cv = component_views(cs@);
        let mut k = from;
        proof {
            assert(cv.subrange(from as int, from as int) =~= Seq::<Seq<u8>>::empty());
            assert(buf@ =~= old(buf)@ + Seq::<u8>::empty());
        }
        while k < cs.len()
            invariant
                from <= k <= cs@.len(),
                cv == component_views(cs@),
                cv.len() == cs@.len(),
                buf@ == old(buf)@ + encoded_joined(cv.subrange(from as int, k as int), sep),
            decreases cs@.len() - k,
        {
            let ghost before = buf@;
            if k > from {
                buf.push(sep);
            }
            let ghost mid = buf@;
            crate::convert::wsl_to_win::encode::path(cs[k].as_slice(), buf);
            proof {
                let t = cv.subrange(from as int, k + 1);
                assert(t.drop_last() =~= cv.subrange(from as int, k as int));
                assert(t.last() == cs@[k as int]@);
                if k == from {
                    assert(buf@ =~= old(buf)@ + encode_seq(t[0]));
                } else {
                    assert(buf@ =~= old(buf)@ + (encoded_joined(t.drop_last(), sep) + seq![sep] + encode_seq(t.last())));
                }
            }
            k = k + 1;
        }
    }

    /// Converts the WSL path `path`.
    pub fn convert(&self, path: &[u8]) -> (r: Result<Vec<u8>, ConvertError>)
        ensures
            match r {
                Ok(v) => self.convert_spec(path@) == Ok::<Seq<u8>, ConvertError>(v@),
                Err(e) => self.convert_spec(path@) == Err::<Seq<u8>, ConvertError>(e),
            },
    {
        let mut buf: Vec<u8> = Vec::new();
        match self.convert_into_buf(path, &mut buf) {
            Ok(()) => {
                assert(buf@ =~= Seq::<u8>::empty() + buf@);
                Ok(buf)
            },
            Err(e) => Err(e),
        }
    }
}

impl PathConverter for Converter {
    type Error = ConvertError;

    open spec fn wf(&self) -> bool {
        true
    }

    open spec fn convert_spec(&self, p: Seq<u8>) -> Result<Seq<u8>, ConvertError> {
        if !no_nul_before(p, p.len() as int) {
            Err(ConvertError::NullByte { index: first_nul(p) as usize })
        } else {
            match self.absolute_of(p) {
                None => Err(ConvertError::WslPath(WslPathError::NotAbsolute)),
                Some(a) => Ok(self.windows_spec(a)),
            }
        }
    }

    /// Converts the WSL path `path` onto the end of `buf`; a relative path is
    /// taken against the base directory.
        fn convert_into_buf(&self, path: &[u8], buf: &mut Vec<u8>) -> (r: Result<(), ConvertError>)
    {
        proof {
            lemma_extends_append(buf@, Seq::empty());
        }
        let n = path.len();
        let mut i: usize = 0;
        while i < n
            invariant
                i <= n,
                n == path@.len(),
                buf@ == old(buf)@,
                no_nul_before(path@, i as int),
            decreases n - i,
        {
            if path[i] == 0 {
                proof {
                    assert(first_nul(path@) == i);
                    assert(!no_nul_before(path@, n as int));
                    lemma_extends_append(buf@, Seq::empty());
                }
                return Err(ConvertError::NullByte { index: i });
            }
            i = i + 1;
        }
        let mut abs: Vec<u8> = Vec::new();
        if n > 0 && path[0] == 0x2f {
            append(&mut abs, path);
        } else {
            match &self.options.base_directory {
                None => {
                    return Err(ConvertError::WslPath(WslPathError::NotAbsolute));
                },
                Some(b) => {
                    if !(b.len() > 0 && b[0] == 0x2f) {
                        return Err(ConvertError::WslPath(WslPathError::NotAbsolute));
                    }
                    append(&mut abs, b.as_slice());
                    abs.push(0x2f);
                    append(&mut abs, path);
                },
            }
        }
        assert(abs@ =~= self.absolute_of(path@)->Some_0);
        let sep = self.options.sep.value();
        let cs = path_components(abs.as_slice());
        proof {
            assert(cs@.len() == component_views(cs@).len());
            assert(component_views(cs@).subrange(0, cs@.len() as int) =~= components(abs@));
        }
        match get_drive(abs.as_slice()) {
            Some(d) => {
                append(buf, d.as_slice());
                buf.push(0x3a);
                buf.push(sep);
                Self::push_components(&cs, 2, sep, buf);
            },
            None => {
                let unc = &self.root.unc;
                let mut k: usize = 0;
                while k < unc.len()
                    invariant
                        k <= unc@.len(),
                        buf@ == old(buf)@ + with_sep(unc@.subrange(0, k as int), sep),
                    decreases unc@.len() - k,
                {
                    let c = unc[k];
                    buf.push(if c == 0x2f { sep } else { c });
                    k = k + 1;
                    assert(buf@ =~= old(buf)@ + with_sep(unc@.subrange(0, k as int), sep));
                }
                assert(unc@.subrange(0, unc@.len() as int) =~= unc@);
                buf.push(sep);
                Self::push_components(&cs, 0, sep, buf);
            },
        }
        assert(buf@ =~= old(buf)@ + self.windows_spec(abs@));
        proof {
            lemma_extends_append(old(buf)@, self.windows_spec(abs@));
        }
        Ok(())
    }
}

} // verus!
