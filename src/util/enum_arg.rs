use vstd::prelude::*;
use vstd::string::{StrSliceExecFns, StringExecFns};

verus! {

/// `c` with an ASCII upper-case letter made lower-case.
pub open spec fn ascii_lower(c: char) -> u32 {
    if 'A' <= c && c <= 'Z' {
        ((c as u32) + 32) as u32
    } else {
        c as u32
    }
}

/// Whether two texts are the same but for the case of ASCII letters.
pub open spec fn same_ignoring_ascii_case(a: Seq<char>, b: Seq<char>) -> bool {
    a.len() == b.len() && forall|i: int| 0 <= i < a.len() ==> ascii_lower(#[trigger] a[i]) == ascii_lower(b[i])
}

/// Whether `input` names the value that `display` names.
pub open spec fn names(case_sensitive: bool, display: Seq<char>, input: Seq<char>) -> bool {
    if case_sensitive {
        display == input
    } else {
        same_ignoring_ascii_case(display, input)
    }
}

/// The texts joined, with `, ` between each two.
pub open spec fn joined(texts: Seq<Seq<char>>) -> Seq<char>
    decreases texts.len(),
{
    if texts.len() == 0 {
        Seq::empty()
    } else if texts.len() == 1 {
        texts[0]
    } else {
        joined(texts.drop_last()) + seq![',', ' '] + texts.last()
    }
}

pub open spec fn views(texts: Seq<&'static str>) -> Seq<Seq<char>> {
    texts.map_values(|t: &'static str| t@)
}

proof fn lemma_views_push(s: Seq<&'static str>, x: &'static str)
    ensures
        views(s.push(x)) == views(s).push(x@),
{
    assert(views(s.push(x)) =~= views(s).push(x@));
}

fn lower_char(c: char) -> (r: u32)
    ensures
        r == ascii_lower(c),
{
    if 'A' <= c && c <= 'Z' {
        (c as u32) + 32
    } else {
        c as u32
    }
}

/// Whether `input` names the value that `display` names.
pub fn names_exec(case_sensitive: bool, display: &str, input: &str) -> (r: bool)
    ensures
        r == names(case_sensitive, display@, input@),
{
    let n = display.unicode_len();
    if n != input.unicode_len() {
        return false;
    }
    let mut i: usize = 0;
    while i < n
        invariant
            i <= n,
            n == display@.len(),
            n == input@.len(),
            forall|j: int|
                0 <= j < i ==> if case_sensitive {
                    display@[j] == input@[j]
                } else {
                    ascii_lower(#[trigger] display@[j]) == ascii_lower(input@[j])
                },
        decreases n - i,
    {
        let a = display.get_char(i);
        let b = input.get_char(i);
        let same = if case_sensitive {
            a == b
        } else {
            lower_char(a) == lower_char(b)
        };
        if !same {
            return false;
        }
        i = i + 1;
    }
    proof {
        if case_sensitive {
            assert(display@ =~= input@);
        }
    }
    true
}

/// An enum that a command line names by one of a few texts for each value.
pub trait EnumArg: Sized + Copy {
    spec fn spec_case_sensitive() -> bool;

    spec fn spec_variants() -> Seq<Self>;

    spec fn spec_displays(&self) -> Seq<Seq<char>>;

    /// Whether the texts are told apart by the case of their letters.
    fn case_sensitive() -> (r: bool)
        ensures
            r == Self::spec_case_sensitive(),
    ;

    /// Every value, in order.
    fn variants() -> (r: Vec<Self>)
        ensures
            r@ == Self::spec_variants(),
    ;

    /// The texts that name this value; the first is how it is shown.
    fn displays(&self) -> (r: Vec<&'static str>)
        ensures
            views(r@) == self.spec_displays(),
            r@.len() >= 1,
    ;

    /// Whether `input` names this value.
    fn matches(&self, input: &str) -> (r: bool)
        ensures
            r == exists|i: int|
                0 <= i < self.spec_displays().len() && names(
                    Self::spec_case_sensitive(),
                    #[trigger] self.spec_displays()[i],
                    input@,
                ),
    {
        let ds = self.displays();
        let cs = Self::case_sensitive();
        let mut i: usize = 0;
        while i < ds.len()
            invariant
                i <= ds@.len(),
                views(ds@) == self.spec_displays(),
                cs == Self::spec_case_sensitive(),
                forall|j: int| 0 <= j < i ==> !names(cs, #[trigger] views(ds@)[j], input@),
            decreases ds@.len() - i,
        {
            if names_exec(cs, ds[i], input) {
                assert(names(cs, views(ds@)[i as int], input@));
                return true;
            }
            i = i + 1;
        }
        false
    }

}

/// Whether `input` names `v`.
pub open spec fn names_any<T: EnumArg>(v: T, input: Seq<char>) -> bool {
    exists|i: int| 0 <= i < v.spec_displays().len() && names(T::spec_case_sensitive(), #[trigger] v.spec_displays()[i], input)
}

/// The texts of the values, in order.
pub open spec fn all_displays<T: EnumArg>(vs: Seq<T>) -> Seq<Seq<char>>
    decreases vs.len(),
{
    if vs.len() == 0 {
        Seq::empty()
    } else {
        all_displays(vs.drop_last()) + vs.last().spec_displays()
    }
}

/// The texts of all values, in order.
pub fn str_variants<T: EnumArg>() -> (r: Vec<&'static str>)
    ensures
        views(r@) == all_displays(T::spec_variants()),
{
    let vs = T::variants();
    let mut out: Vec<&'static str> = Vec::new();
    let mut i: usize = 0;
    while i < vs.len()
        invariant
            i <= vs@.len(),
            vs@ == T::spec_variants(),
            views(out@) == all_displays(vs@.subrange(0, i as int)),
        decreases vs@.len() - i,
    {
        let ds = vs[i].displays();
        let mut k: usize = 0;
        let ghost before = views(out@);
        while k < ds.len()
            invariant
                k <= ds@.len(),
                views(out@) == before + views(ds@).subrange(0, k as int),
            decreases ds@.len() - k,
        {
            let ghost prev = out@;
            out.push(ds[k]);
            proof {
                lemma_views_push(prev, ds@[k as int]);
                assert(views(ds@).subrange(0, k + 1) =~= views(ds@).subrange(0, k as int).push(views(ds@)[k as int]));
                assert(views(out@) =~= before + views(ds@).subrange(0, k + 1));
            }
            k = k + 1;
        }
        proof {
            assert(views(ds@).subrange(0, ds@.len() as int) =~= views(ds@));
            assert(vs@.subrange(0, i + 1).drop_last() =~= vs@.subrange(0, i as int));
        }
        i = i + 1;
    }
    assert(vs@.subrange(0, vs@.len() as int) =~= vs@);
    out
}

/// The first value that `input` names; or, where none does, a message
/// that lists the texts of all values.
pub fn from_str<T: EnumArg>(input: &str) -> (r: Result<T, String>)
    ensures
        match r {
            Ok(v) => exists|k: int|
                0 <= k < T::spec_variants().len() && T::spec_variants()[k] == v && names_any(
                    T::spec_variants()[k],
                    input@,
                ) && forall|j: int| 0 <= j < k ==> !names_any(#[trigger] T::spec_variants()[j], input@),
            Err(msg) => (forall|j: int|
                0 <= j < T::spec_variants().len() ==> !names_any(#[trigger] T::spec_variants()[j], input@))
                && msg@ == input@ + " must be one of ["@ + joined(all_displays(T::spec_variants())) + "]"@,
        },
{
    let vs = T::variants();
    let mut i: usize = 0;
    while i < vs.len()
        invariant
            i <= vs@.len(),
            vs@ == T::spec_variants(),
            forall|j: int| 0 <= j < i ==> !names_any(#[trigger] vs@[j], input@),
        decreases vs@.len() - i,
    {
        if vs[i].matches(input) {
            return Ok(vs[i]);
        }
        i = i + 1;
    }
    let texts = str_variants::<T>();
    let mut msg = String::from_str(input);
    msg.append(" must be one of [");
    let mut k: usize = 0;
    let ghost head = msg@;
    while k < texts.len()
        invariant
            k <= texts@.len(),
            msg@ == head + joined(views(texts@).subrange(0, k as int)),
        decreases texts@.len() - k,
    {
        let ghost m0 = msg@;
        if k > 0 {
            msg.append(", ");
        }
        msg.append(texts[k]);
        proof {
            reveal_strlit(", ");
            let t = views(texts@).subrange(0, k + 1);
            assert(t.drop_last() =~= views(texts@).subrange(0, k as int));
            assert(t.last() == texts@[k as int]@);
            if k == 0 {
                assert(msg@ =~= head + t[0]);
            } else {
                assert(msg@ =~= m0 + seq![',', ' '] + texts@[k as int]@);
                assert(msg@ =~= head + (joined(t.drop_last()) + seq![',', ' '] + t.last()));
            }
        }
        k = k + 1;
    }
    msg.append("]");
    assert(views(texts@).subrange(0, texts@.len() as int) =~= views(texts@));
    Err(msg)
}

} // verus!
