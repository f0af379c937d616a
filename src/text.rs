//! Character-level helpers shared by the parsers: first matches, splitting on
//! a separator, and trimming of white space.
use vstd::prelude::*;

verus! {

/// The least index below `n` at which `p` holds, if there is one.
pub open spec fn first_where(n: int, p: spec_fn(int) -> bool) -> Option<int> {
    if exists|i: int| 0 <= i < n && #[trigger] p(i) && forall|j: int| 0 <= j < i ==> !#[trigger] p(j) {
        Some(choose|i: int| 0 <= i < n && #[trigger] p(i) && forall|j: int| 0 <= j < i ==> !#[trigger] p(j))
    } else {
        None
    }
}

pub proof fn lemma_first_where_some(n: int, p: spec_fn(int) -> bool, i: int)
    requires
        0 <= i < n,
        p(i),
        forall|j: int| 0 <= j < i ==> !#[trigger] p(j),
    ensures
        first_where(n, p) == Some(i),
{
    let c = choose|c: int| 0 <= c < n && #[trigger] p(c) && forall|j: int| 0 <= j < c ==> !#[trigger] p(j);
    assert(c == i) by {
        if c < i {
            assert(!p(c));
        } else if i < c {
            assert(!p(i));
        }
    }
}

pub proof fn lemma_first_where_none(n: int, p: spec_fn(int) -> bool)
    requires
        forall|j: int| 0 <= j < n ==> !#[trigger] p(j),
    ensures
        first_where(n, p) is None,
{
}

/// Whether `sep` occurs in `s` at position `i`.
pub open spec fn occurs_at(s: Seq<char>, sep: Seq<char>, i: int) -> bool {
    0 <= i && i + sep.len() <= s.len() && s.subrange(i, i + sep.len()) == sep
}

/// The first position at which `sep` occurs in `s`.
pub open spec fn find(s: Seq<char>, sep: Seq<char>) -> Option<int> {
    first_where(s.len() as int, |i: int| occurs_at(s, sep, i))
}

/// `s` cut at each non-overlapping occurrence of the non-empty `sep`, taken
/// from the left; the pieces exclude the separators.
pub open spec fn split(s: Seq<char>, sep: Seq<char>) -> Seq<Seq<char>>
    decreases s.len(),
{
    match find(s, sep) {
        Some(i) => if sep.len() > 0 && 0 <= i {
            seq![s.take(i)] + split(s.skip(i + sep.len()), sep)
        } else {
            seq![s]
        },
        None => seq![s],
    }
}

/// Whether `s` begins with `p`.
pub open spec fn starts_with(s: Seq<char>, p: Seq<char>) -> bool {
    occurs_at(s, p, 0)
}

/// The characters that `char::is_whitespace` accepts: those with the Unicode
/// `White_Space` property.
pub open spec fn is_white_space(c: char) -> bool {
    let u = c as u32;
    ||| 0x9 <= u <= 0xd
    ||| u == 0x20
    ||| u == 0x85
    ||| u == 0xa0
    ||| u == 0x1680
    ||| 0x2000 <= u <= 0x200a
    ||| u == 0x2028
    ||| u == 0x2029
    ||| u == 0x202f
    ||| u == 0x205f
    ||| u == 0x3000
}

/// Relies on `char::is_whitespace`: true exactly for the `White_Space` characters.
pub assume_specification[ char::is_whitespace ](c: char) -> (r: bool)
    ensures
        r == is_white_space(c),
;

/// `s` without its leading and trailing white space, as `str::trim` gives it.
pub open spec fn trim(s: Seq<char>) -> Seq<char> {
    match first_where(s.len() as int, |i: int| !is_white_space(s[i])) {
        Some(a) => match first_where(s.len() as int, |k: int| !is_white_space(s[s.len() - 1 - k])) {
            Some(k) => s.subrange(a, s.len() - k),
            None => Seq::empty(),
        },
        None => Seq::empty(),
    }
}

/// Relies on `str::chars`: the characters of `s`, in order.
#[verifier::external_body]
pub(crate) fn chars_of(s: &str) -> (r: Vec<char>)
    ensures
        r@ == s@,
{
    s.chars().collect()
}

/// Relies on `FromIterator<char>` for `String`: the string of these characters.
#[verifier::external_body]
pub(crate) fn string_of(cs: &[char]) -> (r: String)
    ensures
        r@ == cs@,
{
    cs.iter().collect()
}

pub(crate) fn occurs_here(s: &Vec<char>, sep: &Vec<char>, i: usize) -> (r: bool)
    requires
        i <= s@.len(),
    ensures
        r == occurs_at(s@, sep@, i as int),
{
    if sep.len() > s.len() - i {
        return false;
    }
    let n: usize = s.len();
    let mut k: usize = 0;
    while k < sep.len()
        invariant
            n == s@.len(),
            i + sep@.len() <= s@.len(),
            k <= sep@.len(),
            forall|m: int| 0 <= m < k ==> s@[i + m] == sep@[m],
        decreases sep@.len() - k,
    {
        assert(i + k < s@.len());
        if s[i + k] != sep[k] {
            assert(s@.subrange(i as int, i + sep@.len())[k as int] != sep@[k as int]);
            return false;
        }
        k += 1;
    }
    assert(s@.subrange(i as int, i + sep@.len()) =~= sep@);
    true
}

/// The characters of `s` from `a` up to `b`.
pub fn sub_chars(s: &Vec<char>, a: usize, b: usize) -> (r: Vec<char>)
    requires
        a <= b <= s@.len(),
    ensures
        r@ == s@.subrange(a as int, b as int),
{
    let mut r: Vec<char> = Vec::new();
    let mut i: usize = a;
    while i < b
        invariant
            a <= i <= b <= s@.len(),
            r@ == s@.subrange(a as int, i as int),
        decreases b - i,
    {
        r.push(s[i]);
        assert(r@ =~= s@.subrange(a as int, i + 1));
        i += 1;
    }
    r
}

/// Whether `a` and `b` hold the same characters.
pub fn chars_eq(a: &Vec<char>, b: &Vec<char>) -> (r: bool)
    ensures
        r == (a@ == b@),
{
    if a.len() != b.len() {
        return false;
    }
    let r = occurs_here(a, b, 0);
    proof {
        assert(a@.subrange(0, b@.len() as int) =~= a@);
    }
    r
}

/// The first position of `sep` in `s`.
pub fn find_chars(s: &Vec<char>, sep: &Vec<char>) -> (r: Option<usize>)
    ensures
        match r {
            Some(i) => find(s@, sep@) == Some(i as int) && occurs_at(s@, sep@, i as int),
            None => find(s@, sep@) is None,
        },
{
    let mut i: usize = 0;
    while i < s.len()
        invariant
            i <= s@.len(),
            forall|j: int| 0 <= j < i ==> !occurs_at(s@, sep@, j),
        decreases s@.len() - i,
    {
        if occurs_here(s, sep, i) {
            proof {
                lemma_first_where_some(s@.len() as int, |j: int| occurs_at(s@, sep@, j), i as int);
            }
            return Some(i);
        }
        i += 1;
    }
    proof {
        lemma_first_where_none(s@.len() as int, |j: int| occurs_at(s@, sep@, j));
    }
    None
}

/// `s` without its leading and trailing white space.
pub fn trim_chars(s: &Vec<char>) -> (r: Vec<char>)
    ensures
        r@ == trim(s@),
{
    let n: usize = s.len();
    let mut a: usize = 0;
    while a < n && s[a].is_whitespace()
        invariant
            n == s@.len(),
            a <= n,
            forall|j: int| 0 <= j < a ==> is_white_space(#[trigger] s@[j]),
        decreases n - a,
    {
        a += 1;
    }
    let ghost lead = |i: int| !is_white_space(s@[i]);
    let ghost tail = |k: int| !is_white_space(s@[s@.len() - 1 - k]);
    if a == n {
        proof {
            lemma_first_where_none(n as int, lead);
        }
        return Vec::new();
    }
    proof {
        lemma_first_where_some(n as int, lead, a as int);
    }
    let mut b: usize = n;
    while b > a && s[b - 1].is_whitespace()
        invariant
            n == s@.len(),
            a < n,
            !is_white_space(s@[a as int]),
            a < b <= n,
            forall|j: int| b <= j < n ==> is_white_space(#[trigger] s@[j]),
        decreases b,
    {
        b -= 1;
    }
    proof {
        assert forall|k: int| 0 <= k < n - b implies !#[trigger] tail(k) by {
            assert(is_white_space(s@[n - 1 - k]));
        }
        lemma_first_where_some(n as int, tail, (n - b) as int);
    }
    sub_chars(s, a, b)
}

/// Splits `s` at each occurrence of `sep`, as `str::split` does.
pub fn split_chars(s: &Vec<char>, sep: &Vec<char>) -> (r: Vec<Vec<char>>)
    requires
        sep@.len() > 0,
    ensures
        r@.map_values(|v: Vec<char>| v@) == split(s@, sep@),
        r@.len() == split(s@, sep@).len(),
        forall|i: int| 0 <= i < r@.len() ==> #[trigger] r@[i]@ == split(s@, sep@)[i],
{
    let mut out: Vec<Vec<char>> = Vec::new();
    let mut start: usize = 0;
    let mut i: usize = 0;
    assert(s@.skip(0) =~= s@);
    while i < s.len()
        invariant
            sep@.len() > 0,
            start <= i <= s@.len(),
            out@.map_values(|v: Vec<char>| v@) + split(s@.skip(start as int), sep@) == split(s@, sep@),
            forall|j: int| start <= j < i ==> !occurs_at(s@, sep@, j),
        decreases s@.len() - i,
    {
        if occurs_here(s, sep, i) {
            let ghost rest = s@.skip(start as int);
            let ghost k = (i - start) as int;
            assert forall|j: int| 0 <= j < k implies !occurs_at(rest, sep@, j) by {
                assert(!occurs_at(s@, sep@, start + j));
                if j + sep@.len() <= rest.len() {
                    assert(rest.subrange(j, j + sep@.len()) =~= s@.subrange(start + j, start + j + sep@.len()));
                }
            }
            assert(rest.subrange(k, k + sep@.len()) =~= s@.subrange(i as int, i + sep@.len()));
            proof {
                lemma_first_where_some(rest.len() as int, |j: int| occurs_at(rest, sep@, j), k);
            }
            assert(rest.skip(k + sep@.len()) =~= s@.skip(i + sep@.len()));
            let ghost before = out@.map_values(|v: Vec<char>| v@);
            let piece = sub_chars(s, start, i);
            assert(piece@ =~= rest.take(k));
            out.push(piece);
            assert(out@.map_values(|v: Vec<char>| v@) =~= before + seq![rest.take(k)]);
            start = i + sep.len();
            i = start;
        } else {
            i += 1;
        }
    }
    let ghost rest = s@.skip(start as int);
    assert forall|j: int| 0 <= j < rest.len() implies !occurs_at(rest, sep@, j) by {
        assert(!occurs_at(s@, sep@, start + j));
        if j + sep@.len() <= rest.len() {
            assert(rest.subrange(j, j + sep@.len()) =~= s@.subrange(start + j, start + j + sep@.len()));
        }
    }
    proof {
        lemma_first_where_none(rest.len() as int, |j: int| occurs_at(rest, sep@, j));
    }
    let ghost before = out@.map_values(|v: Vec<char>| v@);
    let piece = sub_chars(s, start, s.len());
    assert(piece@ =~= rest);
    out.push(piece);
    assert(out@.map_values(|v: Vec<char>| v@) =~= before + seq![rest]);
    assert forall|i: int| 0 <= i < out@.len() implies #[trigger] out@[i]@ == split(s@, sep@)[i] by {
        assert(out@.map_values(|v: Vec<char>| v@)[i] == out@[i]@);
    }
    out
}

} // verus!
