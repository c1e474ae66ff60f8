use vstd::prelude::*;

use crate::convert::bytes::append;
use crate::convert::{BulkConversion, Converter, InputPathSeparator, OneConvertError, OutputPathSeparator, PathSeparators};

verus! {

/// The offset of the first separator of `s`, or its length.
pub open spec fn next_sep<I: InputPathSeparator>(input: I, s: Seq<u8>) -> int
    decreases s.len(),
{
    if s.len() == 0 {
        0
    } else if input.spec_matches(s[0]) {
        0
    } else {
        1 + next_sep(input, s.drop_first())
    }
}

/// The length of the part of `s` that ends in a separator: up to and with
/// its last separator, or nothing.
pub open spec fn complete_len<I: InputPathSeparator>(input: I, s: Seq<u8>) -> int
    decreases s.len(),
{
    if s.len() == 0 {
        0
    } else if input.spec_matches(s.last()) {
        s.len() as int
    } else {
        complete_len(input, s.drop_last())
    }
}

/// An error of a list, as a value: index, path and cause.
pub type ErrorRecord<E> = (int, Seq<u8>, E);

pub open spec fn error_record<E>(e: OneConvertError<E>) -> ErrorRecord<E> {
    (e.index as int, e.path@, e.source)
}

pub open spec fn error_records<E>(es: Seq<OneConvertError<E>>) -> Seq<ErrorRecord<E>> {
    es.map_values(|e: OneConvertError<E>| error_record(e))
}

/// The conversion of the paths of `s` that end in a separator, the first of
/// them counted as number `base`: the output, the errors, and how many
/// non-empty paths there were. Empty paths are skipped.
pub open spec fn bulk_spec<C: Converter, I: InputPathSeparator, O: OutputPathSeparator>(
    c: C,
    seps: PathSeparators<I, O>,
    s: Seq<u8>,
    base: int,
) -> (Seq<u8>, Seq<ErrorRecord<C::Error>>, int)
    decreases s.len()
        via bulk_spec_decreases::<C, I, O>
{
    if s.len() == 0 {
        (Seq::empty(), Seq::empty(), 0)
    } else {
        let j = next_sep(seps.input, s);
        let seg = s.subrange(0, j);
        let rest = if j < s.len() {
            s.subrange(j + 1, s.len() as int)
        } else {
            Seq::empty()
        };
        if seg.len() == 0 {
            bulk_spec(c, seps, rest, base)
        } else {
            let tail = bulk_spec(c, seps, rest, base + 1);
            match c.convert_spec(seg) {
                Ok(out) => (out + seps.output.spec_sep() + tail.0, tail.1, tail.2 + 1),
                Err(e) => (seps.output.spec_sep() + tail.0, seq![(base, seg, e)] + tail.1, tail.2 + 1),
            }
        }
    }
}

#[via_fn]
proof fn bulk_spec_decreases<C: Converter, I: InputPathSeparator, O: OutputPathSeparator>(
    c: C,
    seps: PathSeparators<I, O>,
    s: Seq<u8>,
    base: int,
) {
    lemma_next_sep_bounds(seps.input, s);
}

pub(crate) proof fn lemma_next_sep_bounds<I: InputPathSeparator>(input: I, s: Seq<u8>)
    ensures
        0 <= next_sep(input, s) <= s.len(),
        next_sep(input, s) < s.len() ==> input.spec_matches(s[next_sep(input, s)]),
        forall|k: int| 0 <= k < next_sep(input, s) ==> !input.spec_matches(#[trigger] s[k]),
    decreases s.len(),
{
    if s.len() > 0 && !input.spec_matches(s[0]) {
        lemma_next_sep_bounds(input, s.drop_first());
        assert forall|k: int| 0 <= k < next_sep(input, s) implies !input.spec_matches(#[trigger] s[k]) by {
            if k > 0 {
                assert(s[k] == s.drop_first()[k - 1]);
            }
        }
    }
}

/// The first separator at or after `from` and before `to`, or `to`.
fn find_sep<I: InputPathSeparator>(input: &I, paths: &[u8], from: usize, to: usize) -> (r: usize)
    requires
        from <= to <= paths@.len(),
    ensures
        r == from + next_sep(*input, paths@.subrange(from as int, to as int)),
{
    let mut k = from;
    while k < to
        invariant
            from <= k <= to,
            to <= paths@.len(),
            next_sep(*input, paths@.subrange(from as int, to as int)) == (k - from) + next_sep(
                *input,
                paths@.subrange(k as int, to as int),
            ),
        decreases to - k,
    {
        if input.matches(paths[k]) {
            return k;
        }
        proof {
            assert(paths@.subrange(k as int, to as int).drop_first() =~= paths@.subrange(k + 1, to as int));
        }
        k = k + 1;
    }
    k
}

/// The offset past the last separator of `paths`, or 0.
fn remainder_start<I: InputPathSeparator>(input: &I, paths: &[u8]) -> (r: usize)
    ensures
        r == complete_len(*input, paths@),
{
    let mut k = paths.len();
    assert(paths@.subrange(0, k as int) =~= paths@);
    while k > 0
        invariant
            k <= paths@.len(),
            complete_len(*input, paths@) == complete_len(*input, paths@.subrange(0, k as int)),
        decreases k,
    {
        if input.matches(paths[k - 1]) {
            return k;
        }
        proof {
            assert(paths@.subrange(0, k as int).drop_last() =~= paths@.subrange(0, k - 1));
        }
        k = k - 1;
    }
    0
}

pub(crate) proof fn lemma_complete_ends<I: InputPathSeparator>(input: I, s: Seq<u8>)
    ensures
        0 <= complete_len(input, s) <= s.len(),
        complete_len(input, s) > 0 ==> input.spec_matches(s[complete_len(input, s) - 1]),
    decreases s.len(),
{
    if s.len() > 0 && !input.spec_matches(s.last()) {
        lemma_complete_ends(input, s.drop_last());
    }
}

/// Whether `s` ends in a separator, or is empty.
pub open spec fn is_complete<I: InputPathSeparator>(input: I, s: Seq<u8>) -> bool {
    s.len() == 0 || input.spec_matches(s.last())
}

proof fn lemma_next_sep_concat<I: InputPathSeparator>(input: I, s1: Seq<u8>, s2: Seq<u8>)
    requires
        next_sep(input, s1) < s1.len(),
    ensures
        next_sep(input, s1 + s2) == next_sep(input, s1),
    decreases s1.len(),
{
    assert((s1 + s2)[0] == s1[0]);
    if !input.spec_matches(s1[0]) {
        assert((s1 + s2).drop_first() =~= s1.drop_first() + s2);
        lemma_next_sep_concat(input, s1.drop_first(), s2);
    }
}

/// The part of `s` up to its last separator ends in a separator.
pub(crate) proof fn lemma_complete_prefix<I: InputPathSeparator>(input: I, s: Seq<u8>)
    ensures
        is_complete(input, s.subrange(0, complete_len(input, s))),
        complete_len(input, s.subrange(0, complete_len(input, s))) == complete_len(input, s),
{
    lemma_complete_ends(input, s);
    let n = complete_len(input, s);
    let p = s.subrange(0, n);
    if n > 0 {
        assert(p.last() == s[n - 1]);
    }
}

/// Where the last separator of `x + y` stands.
pub(crate) proof fn lemma_complete_len_concat<I: InputPathSeparator>(input: I, x: Seq<u8>, y: Seq<u8>)
    ensures
        complete_len(input, x + y) == if complete_len(input, y) > 0 {
            x.len() + complete_len(input, y)
        } else {
            complete_len(input, x)
        },
    decreases y.len(),
{
    if y.len() == 0 {
        assert(x + y =~= x);
    } else {
        assert((x + y).last() == y.last());
        if !input.spec_matches(y.last()) {
            assert((x + y).drop_last() =~= x + y.drop_last());
            lemma_complete_len_concat(input, x, y.drop_last());
        }
    }
}

/// The errors with each index moved on by `k`.
pub open spec fn shifted<E>(es: Seq<ErrorRecord<E>>, k: int) -> Seq<ErrorRecord<E>> {
    es.map_values(|e: ErrorRecord<E>| (e.0 + k, e.1, e.2))
}

/// Counting the paths from `b` rather than from `a` changes only the indices
/// of the errors, each by `b - a`.
pub proof fn lemma_bulk_base<C: Converter, I: InputPathSeparator, O: OutputPathSeparator>(
    c: C,
    seps: PathSeparators<I, O>,
    s: Seq<u8>,
    a: int,
    b: int,
)
    ensures
        ({
            let ta = bulk_spec(c, seps, s, a);
            bulk_spec(c, seps, s, b) == (ta.0, shifted(ta.1, b - a), ta.2)
        }),
    decreases s.len(),
{
    if s.len() == 0 {
        assert(shifted(Seq::<ErrorRecord<C::Error>>::empty(), b - a) =~= Seq::<ErrorRecord<C::Error>>::empty());
    } else {
        lemma_next_sep_bounds(seps.input, s);
        let j = next_sep(seps.input, s);
        let seg = s.subrange(0, j);
        let rest = if j < s.len() {
            s.subrange(j + 1, s.len() as int)
        } else {
            Seq::empty()
        };
        if seg.len() == 0 {
            lemma_bulk_base(c, seps, rest, a, b);
        } else {
            lemma_bulk_base(c, seps, rest, a + 1, b + 1);
            let ra = bulk_spec(c, seps, rest, a + 1);
            match c.convert_spec(seg) {
                Ok(out) => {},
                Err(e) => {
                    assert(seq![(b, seg, e)] + shifted(ra.1, b - a) =~= shifted(seq![(a, seg, e)] + ra.1, b - a));
                },
            }
        }
    }
}

/// Converting a list that ends in a separator, then another, is converting
/// the two as one list: outputs and errors follow each other, and the second
/// list's paths are counted after the first's.
pub proof fn lemma_bulk_concat<C: Converter, I: InputPathSeparator, O: OutputPathSeparator>(
    c: C,
    seps: PathSeparators<I, O>,
    s1: Seq<u8>,
    s2: Seq<u8>,
    base: int,
)
    requires
        is_complete(seps.input, s1),
    ensures
        ({
            let t1 = bulk_spec(c, seps, s1, base);
            let t2 = bulk_spec(c, seps, s2, base + t1.2);
            bulk_spec(c, seps, s1 + s2, base) == (t1.0 + t2.0, t1.1 + t2.1, t1.2 + t2.2)
        }),
    decreases s1.len(),
{
    let input = seps.input;
    if s1.len() == 0 {
        assert(s1 + s2 =~= s2);
        let t2 = bulk_spec(c, seps, s2, base);
        assert(Seq::<u8>::empty() + t2.0 =~= t2.0);
        assert(Seq::<ErrorRecord<C::Error>>::empty() + t2.1 =~= t2.1);
    } else {
        lemma_next_sep_bounds(input, s1);
        let j = next_sep(input, s1);
        if j == s1.len() {
            assert(!input.spec_matches(s1[s1.len() - 1]));
        }
        lemma_next_sep_concat(input, s1, s2);
        let s = s1 + s2;
        let rest1 = s1.subrange(j + 1, s1.len() as int);
        assert(s.subrange(0, j) =~= s1.subrange(0, j));
        assert(s.subrange(j + 1, s.len() as int) =~= rest1 + s2);
        if rest1.len() > 0 {
            assert(rest1.last() == s1.last());
        }
        let seg = s1.subrange(0, j);
        if seg.len() == 0 {
            lemma_bulk_concat(c, seps, rest1, s2, base);
        } else {
            lemma_bulk_concat(c, seps, rest1, s2, base + 1);
            let r1 = bulk_spec(c, seps, rest1, base + 1);
            let r2 = bulk_spec(c, seps, s2, base + 1 + r1.2);
            let sep = seps.output.spec_sep();
            match c.convert_spec(seg) {
                Ok(out) => {
                    assert(out + sep + (r1.0 + r2.0) =~= (out + sep + r1.0) + r2.0);
                },
                Err(e) => {
                    assert(sep + (r1.0 + r2.0) =~= (sep + r1.0) + r2.0);
                    assert(seq![(base, seg, e)] + (r1.1 + r2.1) =~= (seq![(base, seg, e)] + r1.1) + r2.1);
                },
            }
        }
    }
}

/// Converts with `c` each path of `paths` that ends in a separator. The output has
/// one line for each non-empty path, in order: the converted path and the
/// output separator, or the separator alone where the path failed, which
/// leaves a record among the errors. What follows the last separator is
/// left for a later call: `remainder_index` says where it starts.
pub fn convert_all<C: Converter, I: InputPathSeparator, O: OutputPathSeparator>(
    c: &C,
    paths: &[u8],
    seps: &PathSeparators<I, O>,
) -> (r: BulkConversion<C::Error>)
    requires
        c.wf(),
    ensures
        r.remainder_index == complete_len(seps.input, paths@),
        r.paths@ == bulk_spec(*c, *seps, paths@.subrange(0, r.remainder_index as int), 0).0,
        error_records(r.errors@) == bulk_spec(*c, *seps, paths@.subrange(0, r.remainder_index as int), 0).1,
{
    proof {
        assert(paths.len() == paths@.len());
    }
    convert_list(c, paths, seps, 0).0
}

/// `convert_all`, with the paths counted from `base`; also the count
/// after the last of them.
pub(crate) fn convert_list<C: Converter, I: InputPathSeparator, O: OutputPathSeparator>(
    c: &C,
    paths: &[u8],
    seps: &PathSeparators<I, O>,
    base: usize,
) -> (r: (BulkConversion<C::Error>, usize))
    requires
        c.wf(),
        base + paths@.len() <= usize::MAX,
    ensures
        r.0.remainder_index == complete_len(seps.input, paths@),
        ({
            let t = bulk_spec(*c, *seps, paths@.subrange(0, r.0.remainder_index as int), base as int);
            t == (r.0.paths@, error_records(r.0.errors@), r.1 - base)
        }),
        base <= r.1 <= base + r.0.remainder_index,
{
    let rem = remainder_start(&seps.input, paths);
    proof {
        lemma_complete_ends(seps.input, paths@);
        assert(paths@.subrange(0, 0) =~= Seq::<u8>::empty());
    }
    let ghost full = paths@.subrange(0, rem as int);
    let mut buf: Vec<u8> = Vec::with_capacity(rem);
    let mut errors: Vec<OneConvertError<C::Error>> = Vec::new();
    let mut index: usize = base;
    let mut start: usize = 0;
    while start < rem
        invariant
            c.wf(),
            start <= rem <= paths@.len(),
            base + paths@.len() <= usize::MAX,
            base <= index <= base + start,
            full == paths@.subrange(0, rem as int),
            rem > 0 ==> seps.input.spec_matches(paths@[rem - 1]),
            ({
                let tail = bulk_spec(*c, *seps, paths@.subrange(start as int, rem as int), index as int);
                bulk_spec(*c, *seps, full, base as int) == (
                    buf@ + tail.0,
                    error_records(errors@) + tail.1,
                    (index - base) + tail.2,
                )
            }),
        decreases rem - start,
    {
        let j = find_sep(&seps.input, paths, start, rem);
        let ghost s = paths@.subrange(start as int, rem as int);
        proof {
            lemma_next_sep_bounds(seps.input, s);
            if j == rem {
                assert(s[rem - 1 - start] == paths@[rem - 1]);
            }
            assert(j < rem);
            assert(s.subrange(0, j - start) =~= paths@.subrange(start as int, j as int));
            assert(s.subrange(j - start + 1, s.len() as int) =~= paths@.subrange(j + 1, rem as int));
        }
        if j > start {
            let seg = vstd::slice::slice_subrange(paths, start, j);
            let mark = buf.len();
            let ghost before = buf@;
            match c.convert_into_buf(seg, &mut buf) {
                Ok(()) => {},
                Err(source) => {
                    buf.truncate(mark);
                    let mut path: Vec<u8> = Vec::new();
                    append(&mut path, seg);
                    let ghost errs0 = errors@;
                    errors.push(OneConvertError { index, path, source });
                    proof {
                        assert(buf@ =~= before);
                        assert(error_records(errors@) =~= error_records(errs0) + seq![(index as int, seg@, source)]);
                    }
                },
            }
            seps.output.write_to_buf(&mut buf);
            index = index + 1;
        }
        start = j + 1;
    }
    proof {
        assert(buf@ =~= buf@ + Seq::<u8>::empty());
        assert(error_records(errors@) =~= error_records(errors@) + Seq::<ErrorRecord<C::Error>>::empty());
    }
    (BulkConversion { paths: buf, remainder_index: rem, errors }, index)
}

/// A list of one non-empty path: its line is the converted path and the
/// output separator, or the separator alone where it fails.
pub proof fn lemma_single_path<C: Converter, I: InputPathSeparator, O: OutputPathSeparator>(
    c: C,
    seps: PathSeparators<I, O>,
    p: Seq<u8>,
    x: u8,
)
    requires
        p.len() > 0,
        forall|k: int| 0 <= k < p.len() ==> !seps.input.spec_matches(#[trigger] p[k]),
        seps.input.spec_matches(x),
    ensures
        bulk_spec(c, seps, p.push(x), 0).0 == match c.convert_spec(p) {
            Ok(out) => out + seps.output.spec_sep(),
            Err(_) => seps.output.spec_sep(),
        },
{
    let s = p.push(x);
    lemma_next_sep_bounds(seps.input, s);
    let j = next_sep(seps.input, s);
    if j < p.len() {
        assert(s[j] == p[j]);
    }
    if j == s.len() {
        assert(!seps.input.spec_matches(s[p.len() as int]));
    }
    assert(j == p.len());
    assert(s.subrange(0, j) =~= p);
    assert(s.subrange(j + 1, s.len() as int) =~= Seq::<u8>::empty());
    let sep = seps.output.spec_sep();
    let rest = bulk_spec(c, seps, Seq::<u8>::empty(), 1);
    assert(rest.0 == Seq::<u8>::empty());
    assert(sep + Seq::<u8>::empty() =~= sep);
    match c.convert_spec(p) {
        Ok(out) => {
            assert(out + sep + Seq::<u8>::empty() =~= out + sep);
        },
        Err(_) => {},
    }
}

/// Paths that come later leave the conversion of earlier ones as it is: the
/// output and the errors of a list that ends in a separator stand unchanged
/// at the front of those of any longer list.
pub proof fn lemma_earlier_paths_unaffected<C: Converter, I: InputPathSeparator, O: OutputPathSeparator>(
    c: C,
    seps: PathSeparators<I, O>,
    s1: Seq<u8>,
    s2: Seq<u8>,
)
    requires
        is_complete(seps.input, s1),
    ensures
        ({
            let t1 = bulk_spec(c, seps, s1, 0);
            let t = bulk_spec(c, seps, s1 + s2, 0);
            &&& t1.0.len() <= t.0.len()
            &&& t.0.subrange(0, t1.0.len() as int) == t1.0
            &&& t1.1.len() <= t.1.len()
            &&& t.1.subrange(0, t1.1.len() as int) == t1.1
        }),
{
    lemma_bulk_concat(c, seps, s1, s2, 0);
    let t1 = bulk_spec(c, seps, s1, 0);
    let t2 = bulk_spec(c, seps, s2, t1.2);
    assert((t1.0 + t2.0).subrange(0, t1.0.len() as int) =~= t1.0);
    assert((t1.1 + t2.1).subrange(0, t1.1.len() as int) =~= t1.1);
}

} // verus!
