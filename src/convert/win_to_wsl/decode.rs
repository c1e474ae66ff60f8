use vstd::prelude::*;

use optional::Optioned;

use crate::convert::path_sep::WindowsPathSep;
use crate::convert::windows_file_name_char::{
    char_type, IllegalWindowsFileNameCharError, WindowsFileNameCharType,
};

verus! {

/// A byte that may be absent, held as `optional::Optioned<u8>`: one byte,
/// with `u8::MAX` marking the absent value.
#[verifier::external_body]
pub struct EscapedByte {
    inner: Optioned<u8>,
}

/// What an `EscapedByte` holds.
pub uninterp spec fn optioned_u8(o: EscapedByte) -> Option<u8>;

/// Relies on `optional::Optioned::some`: it asserts that the value is not
/// `u8::MAX`, the marker of an empty `Optioned<u8>`, and holds it.
#[verifier::external_body]
fn optioned_some(d: u8) -> (r: EscapedByte)
    requires
        d != u8::MAX,
    ensures
        optioned_u8(r) == Some(d),
{
    EscapedByte { inner: Optioned::some(d) }
}

/// Relies on `optional::Optioned::none`: it holds no value.
#[verifier::external_body]
fn optioned_none() -> (r: EscapedByte)
    ensures
        optioned_u8(r) == None::<u8>,
{
    EscapedByte { inner: Optioned::none() }
}

/// Relies on `optional::Optioned::into_option`: the held value, if any.
#[verifier::external_body]
fn optioned_into_option(o: EscapedByte) -> (r: Option<u8>)
    ensures
        r == optioned_u8(o),
{
    o.inner.into_option()
}

impl EscapedByte {
    /// The byte held, if any.
    pub fn into_option(self) -> (r: Option<u8>)
        ensures
            r == optioned_u8(self),
    {
        optioned_into_option(self)
    }
}

/// The bytes that a WSL distribution escapes in Windows file names: every
/// byte below a space, the reserved punctuation and the backslash.
pub open spec fn is_escaped_byte(d: u8) -> bool {
    match char_type(d) {
        WindowsFileNameCharType::Slash | WindowsFileNameCharType::Legal => false,
        _ => true,
    }
}

/// The byte that the three bytes `a b c` stand for, when they are an escape.
///
/// An escaped byte `d` is written as `239, 128, d + 128` (a byte below a
/// space, a NUL or a reserved one) or as `239, 129, d + 64` (a reserved one or
/// the backslash). The first form of a byte below 64 is the UTF-8 form of the
/// code point `U+F000 + d`, and so is the second form of one at 64 and above.
pub open spec fn escape_value(a: u8, b: u8, c: u8) -> Option<u8> {
    if a != 239 {
        None
    } else if b == 128 && c >= 128 && low_form_byte((c - 128) as u8) {
        Some((c - 128) as u8)
    } else if b == 129 && c >= 64 && high_form_byte((c - 64) as u8) {
        Some((c - 64) as u8)
    } else {
        None
    }
}

/// The bytes that may be escaped in the form `239, 128, d + 128`.
pub open spec fn low_form_byte(d: u8) -> bool {
    let t = char_type(d);
    t == WindowsFileNameCharType::Null || t == WindowsFileNameCharType::Low || t
        == WindowsFileNameCharType::Reserved
}

/// The bytes that may be escaped in the form `239, 129, d + 64`.
pub open spec fn high_form_byte(d: u8) -> bool {
    let t = char_type(d);
    t == WindowsFileNameCharType::Reserved || t == WindowsFileNameCharType::BackSlash
}

/// Undoes the escapes in `s`, left to right: where the next three bytes are an
/// escape they give one byte, else the next byte stays as it is.
pub open spec fn decode_seq(s: Seq<u8>) -> Seq<u8>
    decreases s.len(),
{
    if s.len() < 3 {
        s
    } else {
        match escape_value(s[0], s[1], s[2]) {
            Some(d) => seq![d] + decode_seq(s.subrange(3, s.len() as int)),
            None => seq![s[0]] + decode_seq(s.subrange(1, s.len() as int)),
        }
    }
}

/// A byte that may stand in a converted path as it is.
pub open spec fn is_path_byte(c: u8) -> bool {
    char_type(c) == WindowsFileNameCharType::Legal || char_type(c) == WindowsFileNameCharType::Slash
}

pub open spec fn path_bytes_before(s: Seq<u8>, n: int) -> bool {
    forall|j: int| 0 <= j < n ==> #[trigger] is_path_byte(s[j])
}

/// The offset of the first byte of `s` that may not stand in a path.
pub open spec fn first_illegal(s: Seq<u8>) -> int {
    choose|i: int| 0 <= i < s.len() && !is_path_byte(s[i]) && path_bytes_before(s, i)
}

pub open spec fn illegal_at(s: Seq<u8>, i: int, base: int) -> IllegalWindowsFileNameCharError {
    IllegalWindowsFileNameCharError { byte: s[i], char_type: char_type(s[i]), index: (base + i) as usize }
}

/// Decoding of a path whose offsets start at `base`: the first byte that is
/// neither legal nor a slash is an error, else the escapes are undone.
pub open spec fn decode_path_at(s: Seq<u8>, base: int) -> Result<Seq<u8>, IllegalWindowsFileNameCharError> {
    if path_bytes_before(s, s.len() as int) {
        Ok(decode_seq(s))
    } else {
        Err(illegal_at(s, first_illegal(s), base))
    }
}

pub open spec fn decode_path(s: Seq<u8>) -> Result<Seq<u8>, IllegalWindowsFileNameCharError> {
    decode_path_at(s, 0)
}

/// Whether a decoding succeeded, and its error if it did not.
pub open spec fn outcome<E>(r: Result<Seq<u8>, E>) -> Result<(), E> {
    match r {
        Ok(_) => Ok(()),
        Err(e) => Err(e),
    }
}

/// The byte as it reads once the Windows separator is a slash.
pub open spec fn sep_normal(sep: WindowsPathSep, c: u8) -> u8 {
    if sep == WindowsPathSep::BackSlash && c == 0x5c {
        0x2f
    } else {
        c
    }
}

pub open spec fn normalized(s: Seq<u8>, sep: WindowsPathSep) -> Seq<u8> {
    Seq::new(s.len(), |i: int| sep_normal(sep, s[i]))
}

pub fn normal_byte(sep: WindowsPathSep, c: u8) -> (r: u8)
    ensures
        r == sep_normal(sep, c),
{
    match sep {
        WindowsPathSep::BackSlash => if c == 0x5c {
            0x2f
        } else {
            c
        },
        WindowsPathSep::Slash => c,
    }
}

/// Decodes one escape: the byte that `codepoint` stands for, if it is one.
pub fn codepoint(bytes: [u8; 3]) -> (r: EscapedByte)
    ensures
        optioned_u8(r) == escape_value(bytes[0], bytes[1], bytes[2]),
{
    let a = bytes[0];
    let b = bytes[1];
    let c = bytes[2];
    if a != 239 {
        return optioned_none();
    }
    if b == 128 && c >= 128 {
        let d = c - 128;
        match WindowsFileNameCharType::from(d) {
            WindowsFileNameCharType::Null
            | WindowsFileNameCharType::Low
            | WindowsFileNameCharType::Reserved => optioned_some(d),
            _ => optioned_none(),
        }
    } else if b == 129 && c >= 64 {
        let d = c - 64;
        match WindowsFileNameCharType::from(d) {
            WindowsFileNameCharType::Reserved | WindowsFileNameCharType::BackSlash => optioned_some(d),
            _ => optioned_none(),
        }
    } else {
        optioned_none()
    }
}

proof fn lemma_decode_step(s: Seq<u8>, i: int)
    requires
        0 <= i <= s.len(),
    ensures
        s.len() - i >= 3 ==> decode_seq(s.subrange(i, s.len() as int)) == match escape_value(
            s[i],
            s[i + 1],
            s[i + 2],
        ) {
            Some(d) => seq![d] + decode_seq(s.subrange(i + 3, s.len() as int)),
            None => seq![s[i]] + decode_seq(s.subrange(i + 1, s.len() as int)),
        },
        s.len() - i < 3 ==> decode_seq(s.subrange(i, s.len() as int)) == s.subrange(i, s.len() as int),
{
    let t = s.subrange(i, s.len() as int);
    if t.len() >= 3 {
        assert(t.subrange(3, t.len() as int) =~= s.subrange(i + 3, s.len() as int));
        assert(t.subrange(1, t.len() as int) =~= s.subrange(i + 1, s.len() as int));
    }
}

/// Checks that byte `c`, at offset `i`, may stand in a converted path.
fn check_char(c: u8, i: usize) -> (r: Result<u8, IllegalWindowsFileNameCharError>)
    ensures
        is_path_byte(c) ==> r == Ok::<u8, IllegalWindowsFileNameCharError>(c),
        !is_path_byte(c) ==> r == Err::<u8, IllegalWindowsFileNameCharError>(
            IllegalWindowsFileNameCharError { byte: c, char_type: char_type(c), index: i },
        ),
{
    match WindowsFileNameCharType::from(c) {
        WindowsFileNameCharType::Legal | WindowsFileNameCharType::Slash => Ok(c),
        _ => Err(IllegalWindowsFileNameCharError::at(c, i)),
    }
}

/// Checks that each byte of `path[start..]`, read with `sep` as the
/// separator, may stand in a converted path.
fn check_path(path: &[u8], start: usize, sep: WindowsPathSep) -> (r: Result<(), IllegalWindowsFileNameCharError>)
    requires
        start <= path@.len(),
    ensures
        r is Ok <==> path_bytes_before(
            normalized(path@, sep).subrange(start as int, path@.len() as int),
            path@.len() - start,
        ),
        r matches Err(e) ==> e == illegal_at(
            normalized(path@, sep).subrange(start as int, path@.len() as int),
            first_illegal(normalized(path@, sep).subrange(start as int, path@.len() as int)),
            start as int,
        ),
{
    let ghost s = normalized(path@, sep).subrange(start as int, path@.len() as int);
    let len = path.len();
    let mut k: usize = start;
    while k < len
        invariant
            start <= k <= len,
            len == path@.len(),
            s == normalized(path@, sep).subrange(start as int, len as int),
            path_bytes_before(s, k - start),
        decreases len - k,
    {
        match check_char(normal_byte(sep, path[k]), k) {
            Err(e) => {
                proof {
                    let i = k - start;
                    assert(!is_path_byte(s[i]));
                    assert(first_illegal(s) == i);
                    assert(!path_bytes_before(s, len - start));
                }
                return Err(e);
            },
            Ok(_) => {},
        }
        k = k + 1;
    }
    Ok(())
}

/// Decodes `path[start..]`, read with `sep` as the separator, onto the end of
/// `buf`. Offsets in an error are offsets in `path`.
pub(crate) fn decode_tail(path: &[u8], start: usize, sep: WindowsPathSep, buf: &mut Vec<u8>) -> (r: Result<(), IllegalWindowsFileNameCharError>)
    requires
        start <= path@.len(),
    ensures
        r == outcome(decode_path_at(normalized(path@, sep).subrange(start as int, path@.len() as int), start as int)),
        r is Ok ==> final(buf)@ == old(buf)@ + decode_seq(normalized(path@, sep).subrange(start as int, path@.len() as int)),
        r is Err ==> final(buf)@ == old(buf)@,
{
    let ghost s = normalized(path@, sep).subrange(start as int, path@.len() as int);
    let len = path.len();
    match check_path(path, start, sep) {
        Err(e) => {
            return Err(e);
        },
        Ok(()) => {},
    }
    let ghost out0 = buf@;
    let mut i: usize = start;
    while len - i > 2
        invariant
            start <= i <= len,
            len == path@.len(),
            s == normalized(path@, sep).subrange(start as int, len as int),
            out0 + decode_seq(s) == buf@ + decode_seq(normalized(path@, sep).subrange(i as int, len as int)),
        decreases len - i,
    {
        let a = normal_byte(sep, path[i]);
        let b = normal_byte(sep, path[i + 1]);
        let c = normal_byte(sep, path[i + 2]);
        proof {
            lemma_decode_step(normalized(path@, sep), i as int);
        }
        let ghost before = buf@;
        match optioned_into_option(codepoint([a, b, c])) {
            Some(d) => {
                buf.push(d);
                i = i + 3;
                proof {
                    assert(buf@ =~= before + seq![d]);
                }
            },
            None => {
                buf.push(a);
                i = i + 1;
                proof {
                    assert(buf@ =~= before + seq![a]);
                }
            },
        }
    }
    proof {
        lemma_decode_step(normalized(path@, sep), i as int);
    }
    while i < len
        invariant
            start <= i <= len,
            len == path@.len(),
            out0 + decode_seq(s) == buf@ + normalized(path@, sep).subrange(i as int, len as int),
        decreases len - i,
    {
        buf.push(normal_byte(sep, path[i]));
        i = i + 1;
    }
    proof {
        assert(path_bytes_before(s, s.len() as int));
        assert(buf@ =~= out0 + decode_seq(s));
    }
    Ok(())
}

/// Decodes a WSL path written in the Windows namespace onto the end of `buf`:
/// the escaped bytes come back as they were.
pub fn path(p: &[u8], buf: &mut Vec<u8>) -> (r: Result<(), IllegalWindowsFileNameCharError>)
    ensures
        r == outcome(decode_path(p@)),
        r is Ok ==> final(buf)@ == old(buf)@ + decode_seq(p@),
        r is Err ==> final(buf)@ == old(buf)@,
{
    proof {
        assert(normalized(p@, WindowsPathSep::Slash).subrange(0, p@.len() as int) =~= p@);
    }
    decode_tail(p, 0, WindowsPathSep::Slash, buf)
}

} // verus!
