use vstd::prelude::*;

use crate::convert::bytes::append;

verus! {

/// The offset of the first slash of `s`, or its length.
pub open spec fn next_slash(s: Seq<u8>) -> int
    decreases s.len(),
{
    if s.len() == 0 {
        0
    } else if s[0] == 0x2f {
        0
    } else {
        1 + next_slash(s.drop_first())
    }
}

proof fn lemma_next_slash_bounds(s: Seq<u8>)
    ensures
        0 <= next_slash(s) <= s.len(),
    decreases s.len(),
{
    if s.len() > 0 && s[0] != 0x2f {
        lemma_next_slash_bounds(s.drop_first());
    }
}

/// The components of a path: the pieces between slashes, without the empty
/// ones and those that are `.`.
pub open spec fn components(s: Seq<u8>) -> Seq<Seq<u8>>
    decreases s.len()
        via components_decreases
{
    if s.len() == 0 {
        Seq::empty()
    } else {
        let j = next_slash(s);
        let piece = s.subrange(0, j);
        let rest = if j < s.len() {
            s.subrange(j + 1, s.len() as int)
        } else {
            Seq::<u8>::empty()
        };
        if piece.len() == 0 || piece == seq![0x2eu8] {
            components(rest)
        } else {
            seq![piece] + components(rest)
        }
    }
}

#[via_fn]
proof fn components_decreases(s: Seq<u8>) {
    lemma_next_slash_bounds(s);
}

pub open spec fn is_ascii_alpha(c: u8) -> bool {
    (0x41 <= c && c <= 0x5a) || (0x61 <= c && c <= 0x7a)
}

pub open spec fn to_upper(c: u8) -> u8 {
    if 0x61 <= c && c <= 0x7a {
        (c - 32) as u8
    } else {
        c
    }
}

/// `mnt`.
pub open spec fn mnt() -> Seq<u8> {
    seq![0x6du8, 0x6e, 0x74]
}

/// The drive of an absolute path under `/mnt/`: its second component, in
/// upper case, where that is made of ASCII letters.
pub open spec fn drive_of(p: Seq<u8>) -> Option<Seq<u8>> {
    let cs = components(p);
    if cs.len() >= 2 && cs[0] == mnt() && forall|i: int| 0 <= i < cs[1].len() ==> is_ascii_alpha(#[trigger] cs[1][i]) {
        Some(cs[1].map_values(|c: u8| to_upper(c)))
    } else {
        None
    }
}

/// The components joined with backslashes.
pub open spec fn backslash_joined(cs: Seq<Seq<u8>>) -> Seq<u8>
    decreases cs.len(),
{
    if cs.len() == 0 {
        Seq::empty()
    } else if cs.len() == 1 {
        cs[0]
    } else {
        backslash_joined(cs.drop_last()) + seq![0x5cu8] + cs.last()
    }
}

/// The Windows form of an absolute path under a drive's mount point:
/// `<DRIVE>:\` and the components after the drive, joined with backslashes.
pub open spec fn windows_form(p: Seq<u8>) -> Option<Seq<u8>> {
    match drive_of(p) {
        None => None,
        Some(d) => Some(d + seq![0x3au8, 0x5c] + backslash_joined(components(p).subrange(2, components(p).len() as int))),
    }
}

/// Whether the drive's name is made of ASCII letters.
fn is_valid_drive(drive: &[u8]) -> (r: bool)
    ensures
        r == forall|i: int| 0 <= i < drive@.len() ==> is_ascii_alpha(#[trigger] drive@[i]),
{
    let mut i: usize = 0;
    while i < drive.len()
        invariant
            i <= drive@.len(),
            forall|k: int| 0 <= k < i ==> is_ascii_alpha(#[trigger] drive@[k]),
        decreases drive@.len() - i,
    {
        let c = drive[i];
        if !((0x41 <= c && c <= 0x5a) || (0x61 <= c && c <= 0x7a)) {
            return false;
        }
        i = i + 1;
    }
    true
}

pub open spec fn component_views(v: Seq<Vec<u8>>) -> Seq<Seq<u8>> {
    v.map_values(|c: Vec<u8>| c@)
}

/// The components of `p`, in order.
pub fn path_components(p: &[u8]) -> (r: Vec<Vec<u8>>)
    ensures
        component_views(r@) == components(p@),
{
    let n = p.len();
    let mut out: Vec<Vec<u8>> = Vec::new();
    let mut start: usize = 0;
    proof {
        assert(p@.subrange(0, n as int) =~= p@);
        assert(component_views(out@) + components(p@) =~= components(p@));
    }
    while start < n
        invariant
            start <= n,
            n == p@.len(),
            component_views(out@) + components(p@.subrange(start as int, n as int)) == components(p@),
        decreases n - start,
    {
        let ghost s = p@.subrange(start as int, n as int);
        let mut j = start;
        while j < n && p[j] != 0x2f
            invariant
                start <= j <= n,
                n == p@.len(),
                s == p@.subrange(start as int, n as int),
                next_slash(s) == (j - start) + next_slash(p@.subrange(j as int, n as int)),
            decreases n - j,
        {
            proof {
                assert(p@.subrange(j as int, n as int).drop_first() =~= p@.subrange(j + 1, n as int));
            }
            j = j + 1;
        }
        proof {
            lemma_next_slash_bounds(s);
            assert(next_slash(s) == j - start);
            assert(s.subrange(0, j - start) =~= p@.subrange(start as int, j as int));
            if j < n {
                assert(s.subrange(j - start + 1, s.len() as int) =~= p@.subrange(j + 1, n as int));
            } else {
                assert(p@.subrange(n as int, n as int) =~= Seq::<u8>::empty());
            }
        }
        let len = j - start;
        let is_dot = len == 1 && p[start] == 0x2e;
        proof {
            let piece = p@.subrange(start as int, j as int);
            if len == 1 {
                assert(is_dot == (piece =~= seq![0x2eu8]));
            } else {
                assert(piece.len() != 1);
            }
        }
        if len > 0 && !is_dot {
            let mut piece: Vec<u8> = Vec::new();
            append(&mut piece, vstd::slice::slice_subrange(p, start, j));
            let ghost before = out@;
            out.push(piece);
            proof {
                assert(component_views(out@) =~= component_views(before).push(piece@));
                assert(piece@ =~= p@.subrange(start as int, j as int));
            }
        }
        if j < n {
            start = j + 1;
        } else {
            start = n;
        }
        proof {
            assert(component_views(out@) + components(p@.subrange(start as int, n as int)) =~= components(p@));
        }
    }
    proof {
        assert(p@.subrange(n as int, n as int) =~= Seq::<u8>::empty());
        assert(component_views(out@) + Seq::<Seq<u8>>::empty() =~= component_views(out@));
    }
    out
}

/// The drive that an absolute path under `/mnt/` lies on, in upper case.
pub(crate) fn get_drive(path: &[u8]) -> (r: Option<Vec<u8>>)
    requires
        path@.len() > 0 && path@[0] == 0x2f,
    ensures
        match r {
            Some(d) => drive_of(path@) == Some(d@),
            None => drive_of(path@) is None,
        },
{
    let cs = path_components(path);
    proof {
        assert(cs@.len() == component_views(cs@).len());
    }
    if cs.len() < 2 {
        return None;
    }
    let first = &cs[0];
    proof {
        assert(component_views(cs@)[0] == cs@[0]@);
        assert(component_views(cs@)[1] == cs@[1]@);
    }
    if !(first.len() == 3 && first[0] == 0x6d && first[1] == 0x6e && first[2] == 0x74) {
        proof {
            if first@ == mnt() {
                assert(first@[0] == 0x6d && first@[1] == 0x6e && first@[2] == 0x74);
            }
        }
        return None;
    }
    assert(first@ =~= mnt());
    let drive = &cs[1];
    if !is_valid_drive(drive.as_slice()) {
        return None;
    }
    let mut d: Vec<u8> = Vec::new();
    let mut i: usize = 0;
    while i < drive.len()
        invariant
            i <= drive@.len(),
            d@ == drive@.subrange(0, i as int).map_values(|c: u8| to_upper(c)),
        decreases drive@.len() - i,
    {
        let c = drive[i];
        d.push(if 0x61 <= c && c <= 0x7a { c - 32 } else { c });
        i = i + 1;
        assert(d@ =~= drive@.subrange(0, i as int).map_values(|c: u8| to_upper(c)));
    }
    assert(drive@.subrange(0, drive@.len() as int) =~= drive@);
    Some(d)
}

/// Whether an absolute path lies under a drive's mount point, `/mnt/<drive>`.
pub fn is_wsl_windows_abs_path(path: &[u8]) -> (r: bool)
    requires
        path@.len() > 0 && path@[0] == 0x2f,
    ensures
        r == drive_of(path@) is Some,
{
    get_drive(path).is_some()
}

/// Whether `path` lies under a drive's mount point; a relative path is
/// judged by the directory it is relative to, `current_dir`.
pub fn is_wsl_windows_path(path: &[u8], current_dir: &[u8]) -> (r: bool)
    requires
        current_dir@.len() > 0 && current_dir@[0] == 0x2f,
    ensures
        path@.len() > 0 && path@[0] == 0x2f ==> r == drive_of(path@) is Some,
        !(path@.len() > 0 && path@[0] == 0x2f) ==> r == drive_of(current_dir@) is Some,
{
    if path.len() > 0 && path[0] == 0x2f {
        is_wsl_windows_abs_path(path)
    } else {
        is_wsl_windows_abs_path(current_dir)
    }
}

/// Appends the components `cs[from..]` joined with backslashes.
fn push_joined(cs: &Vec<Vec<u8>>, from: usize, out: &mut Vec<u8>)
    requires
        from <= cs@.len(),
    ensures
        final(out)@ == old(out)@ + backslash_joined(component_views(cs@).subrange(from as int, cs@.len() as int)),
{
    let ghost cv = component_views(cs@);
    proof {
        assert(cs@.len() == cv.len());
        assert(cv.subrange(from as int, from as int) =~= Seq::<Seq<u8>>::empty());
        assert(out@ =~= old(out)@ + backslash_joined(cv.subrange(from as int, from as int)));
    }
    let mut k: usize = from;
    while k < cs.len()
        invariant
            from <= k <= cs@.len(),
            cv == component_views(cs@),
            cs@.len() == cv.len(),
            out@ == old(out)@ + backslash_joined(cv.subrange(from as int, k as int)),
        decreases cs@.len() - k,
    {
        if k > from {
            out.push(0x5c);
        }
        append(out, cs[k].as_slice());
        proof {
            let t = cv.subrange(from as int, k + 1);
            assert(t.drop_last() =~= cv.subrange(from as int, k as int));
            assert(t.last() == cs@[k as int]@);
            if k == from {
                assert(out@ =~= old(out)@ + t[0]);
            } else {
                assert(out@ =~= old(out)@ + (backslash_joined(t.drop_last()) + seq![0x5cu8] + t.last()));
            }
        }
        k = k + 1;
    }
}

/// Whether a relative path starts with the component `.`, which it keeps.
pub open spec fn leads_with_dot(p: Seq<u8>) -> bool {
    p.len() >= 1 && p[0] == 0x2e && (p.len() == 1 || p[1] == 0x2f)
}

/// The Windows form of a relative path: its components joined with
/// backslashes, a leading `.` kept.
pub open spec fn relative_windows_form(p: Seq<u8>) -> Seq<u8> {
    if leads_with_dot(p) {
        if components(p).len() == 0 {
            seq![0x2eu8]
        } else {
            seq![0x2eu8, 0x5c] + backslash_joined(components(p))
        }
    } else {
        backslash_joined(components(p))
    }
}

/// The Windows form of `path`: an absolute one as `wsl_to_windows_abs_path`
/// gives it; a relative one, where `current_dir` lies under a drive's mount
/// point, as its components joined with backslashes.
pub fn wsl_to_windows_path(path: &[u8], current_dir: &[u8]) -> (r: Option<Vec<u8>>)
    requires
        current_dir@.len() > 0 && current_dir@[0] == 0x2f,
    ensures
        path@.len() > 0 && path@[0] == 0x2f ==> match r {
            Some(w) => windows_form(path@) == Some(w@),
            None => windows_form(path@) is None,
        },
        !(path@.len() > 0 && path@[0] == 0x2f) ==> match r {
            Some(w) => drive_of(current_dir@) is Some && w@ == relative_windows_form(path@),
            None => drive_of(current_dir@) is None,
        },
{
    if path.len() > 0 && path[0] == 0x2f {
        return wsl_to_windows_abs_path(path);
    }
    if !is_wsl_windows_path(path, current_dir) {
        return None;
    }
    let cs = path_components(path);
    proof {
        assert(cs@.len() == component_views(cs@).len());
        assert(component_views(cs@).subrange(0, cs@.len() as int) =~= components(path@));
    }
    let mut out: Vec<u8> = Vec::new();
    if path.len() >= 1 && path[0] == 0x2e && (path.len() == 1 || path[1] == 0x2f) {
        out.push(0x2e);
        if cs.len() > 0 {
            out.push(0x5c);
        }
    }
    let ghost head = out@;
    push_joined(&cs, 0, &mut out);
    proof {
        if leads_with_dot(path@) && cs@.len() == 0 {
            assert(backslash_joined(Seq::<Seq<u8>>::empty()) =~= Seq::<u8>::empty());
        }
        assert(out@ =~= relative_windows_form(path@));
    }
    Some(out)
}

/// The Windows path of an absolute path under a drive's mount point:
/// `/mnt/c/a/b` is `C:\a\b`.
pub fn wsl_to_windows_abs_path(path: &[u8]) -> (r: Option<Vec<u8>>)
    requires
        path@.len() > 0 && path@[0] == 0x2f,
    ensures
        match r {
            Some(w) => windows_form(path@) == Some(w@),
            None => windows_form(path@) is None,
        },
{
    let mut out = match get_drive(path) {
        None => {
            return None;
        },
        Some(d) => d,
    };
    let ghost d = out@;
    out.push(0x3a);
    out.push(0x5c);
    let cs = path_components(path);
    proof {
        assert(cs@.len() == component_views(cs@).len());
    }
    push_joined(&cs, 2, &mut out);
    Some(out)
}

} // verus!
