//! Small verified helpers over strings and characters.
use vstd::prelude::*;

verus! {

broadcast use vstd::string::group_string_axioms;

/// The characters of `s`, in order.
pub fn chars_of(s: &str) -> (v: Vec<char>)
    ensures
        v@ == s@,
{
    let mut v: Vec<char> = Vec::new();
    for c in it: s.chars()
        invariant
            v@ == it.seq().take(it.index() as int),
            it.seq() == s@,
    {
        v.push(c);
    }
    v
}


/// Whether two string slices hold the same characters (std's `==` on `str`).
#[verifier::external_body]
pub fn str_equal(a: &str, b: &str) -> (r: bool)
    ensures
        r == (a@ == b@),
{
    a == b
}

/// Appends one character to a string (std's `String::push`).
#[verifier::external_body]
pub fn string_push(s: &mut String, c: char)
    ensures
        final(s)@ == old(s)@.push(c),
{
    s.push(c)
}

/// A string holding exactly the given characters.
pub fn string_from_chars(cs: &[char]) -> (r: String)
    ensures
        r@ == cs@,
{
    let mut r = String::new();
    let mut i: usize = 0;
    while i < cs.len()
        invariant
            i <= cs@.len(),
            r@ == cs@.take(i as int),
        decreases cs@.len() - i,
    {
        string_push(&mut r, cs[i]);
        i = i + 1;
        assert(cs@.take(i as int) =~= cs@.take((i - 1) as int).push(cs@[i - 1]));
    }
    assert(cs@.take(cs@.len() as int) =~= cs@);
    r
}

/// A copy of `s` as an owned string.
pub fn to_owned_string(s: &str) -> (r: String)
    ensures
        r@ == s@,
{
    s.to_owned()
}

/// `a` followed by `b`.
pub fn concat_str(a: &str, b: &str) -> (r: String)
    ensures
        r@ == a@ + b@,
{
    let mut r = a.to_owned();
    let cs = chars_of(b);
    let mut i: usize = 0;
    while i < cs.len()
        invariant
            i <= cs@.len(),
            cs@ == b@,
            r@ == a@ + cs@.take(i as int),
        decreases cs@.len() - i,
    {
        string_push(&mut r, cs[i]);
        i = i + 1;
        assert(a@ + cs@.take(i as int) =~= (a@ + cs@.take((i - 1) as int)).push(cs@[i - 1]));
    }
    assert(cs@.take(cs@.len() as int) =~= cs@);
    r
}

/// `s` with every occurrence of the non-empty `from` replaced by `to`, scanning left to right
/// without overlap (what std's `str::replace` does for such a pattern).
pub open spec fn replaced(s: Seq<char>, from: Seq<char>, to: Seq<char>) -> Seq<char>
    decreases s.len(),
{
    if from.len() == 0 || s.len() == 0 {
        s
    } else if s.len() >= from.len() && s.take(from.len() as int) == from {
        to + replaced(s.skip(from.len() as int), from, to)
    } else {
        seq![s[0]] + replaced(s.skip(1), from, to)
    }
}

/// Whether `pattern` occurs in `cs` at position `i`.
fn matches_at(cs: &Vec<char>, i: usize, pattern: &Vec<char>) -> (r: bool)
    requires
        i <= cs@.len(),
    ensures
        r == (cs@.len() - i >= pattern@.len() && cs@.skip(i as int).take(pattern@.len() as int) == pattern@),
{
    if cs.len() - i < pattern.len() {
        return false;
    }
    let n = cs.len();
    let mut k: usize = 0;
    while k < pattern.len()
        invariant
            k <= pattern@.len(),
            n == cs@.len(),
            i <= cs@.len(),
            cs@.len() - i >= pattern@.len(),
            forall|m: int| 0 <= m < k ==> cs@[i + m] == pattern@[m],
        decreases pattern@.len() - k,
    {
        assert(i + k < cs@.len());
        if cs[i + k] != pattern[k] {
            assert(cs@.skip(i as int).take(pattern@.len() as int)[k as int] != pattern@[k as int]);
            return false;
        }
        k = k + 1;
    }
    assert(cs@.skip(i as int).take(pattern@.len() as int) =~= pattern@);
    true
}

/// Replaces every occurrence of the non-empty `from` in `s` by `to` (std's `str::replace`).
pub fn replace_all(s: &str, from: &str, to: &str) -> (r: String)
    requires
        from@.len() > 0,
    ensures
        r@ == replaced(s@, from@, to@),
{
    let cs = chars_of(s);
    let pat = chars_of(from);
    let mut out = String::new();
    let mut i: usize = 0;
    assert(cs@.skip(0) =~= cs@);
    assert(out@ + replaced(cs@.skip(0), from@, to@) =~= replaced(cs@, from@, to@));
    while i < cs.len()
        invariant
            i <= cs@.len(),
            cs@ == s@,
            pat@ == from@,
            pat@.len() > 0,
            out@ + replaced(cs@.skip(i as int), from@, to@) == replaced(cs@, from@, to@),
        decreases cs@.len() - i,
    {
        let ghost rest = cs@.skip(i as int);
        if matches_at(&cs, i, &pat) {
            let ghost before = out@;
            let t = concat_str(out.as_str(), to);
            out = t;
            proof {
                assert(rest.len() >= from@.len() && rest.take(from@.len() as int) == from@);
                assert(rest.skip(from@.len() as int) =~= cs@.skip(i + pat@.len()));
                assert(before + replaced(rest, from@, to@) == before + (to@ + replaced(rest.skip(from@.len() as int), from@, to@)));
                assert(out@ + replaced(cs@.skip(i + pat@.len()), from@, to@) =~= before + (to@ + replaced(rest.skip(from@.len() as int), from@, to@)));
            }
            i = i + pat.len();
        } else {
            let ghost before = out@;
            string_push(&mut out, cs[i]);
            proof {
                assert(rest[0] == cs@[i as int]);
                assert(rest.skip(1) =~= cs@.skip(i + 1));
                assert(out@ + replaced(cs@.skip(i + 1), from@, to@) =~= before + (seq![rest[0]] + replaced(rest.skip(1), from@, to@)));
            }
            i = i + 1;
        }
    }
    assert(cs@.skip(cs@.len() as int) =~= seq![]);
    assert(out@ =~= out@ + replaced(cs@.skip(i as int), from@, to@));
    out
}

/// The characters of each string of a list.
pub open spec fn views(v: Seq<String>) -> Seq<Seq<char>> {
    v.map_values(|s: String| s@)
}

/// Whether the list holds `p`.
pub fn list_contains(v: &Vec<String>, p: &str) -> (r: bool)
    ensures
        r == views(v@).contains(p@),
{
    let mut i: usize = 0;
    while i < v.len()
        invariant
            i <= v@.len(),
            forall|j: int| 0 <= j < i ==> views(v@)[j] != p@,
        decreases v@.len() - i,
    {
        if str_equal(v[i].as_str(), p) {
            assert(views(v@)[i as int] == p@);
            return true;
        }
        i = i + 1;
    }
    false
}

/// The position of `p` in the list, if it is there.
pub fn list_position(v: &Vec<String>, p: &str) -> (r: Option<usize>)
    ensures
        r matches Some(i) ==> i < v@.len() && views(v@)[i as int] == p@,
        r is None ==> !views(v@).contains(p@),
{
    let mut i: usize = 0;
    while i < v.len()
        invariant
            i <= v@.len(),
            forall|j: int| 0 <= j < i ==> views(v@)[j] != p@,
        decreases v@.len() - i,
    {
        if str_equal(v[i].as_str(), p) {
            return Some(i);
        }
        i = i + 1;
    }
    None
}

/// Whether `s` begins with `prefix`.
pub fn str_starts_with(s: &str, prefix: &str) -> (r: bool)
    ensures
        r == prefix@.is_prefix_of(s@),
{
    let a = chars_of(s);
    let b = chars_of(prefix);
    if b.len() > a.len() {
        return false;
    }
    let mut i: usize = 0;
    while i < b.len()
        invariant
            i <= b@.len() <= a@.len(),
            a@ == s@,
            b@ == prefix@,
            forall|j: int| 0 <= j < i ==> a@[j] == b@[j],
        decreases b@.len() - i,
    {
        if a[i] != b[i] {
            return false;
        }
        i = i + 1;
    }
    assert(prefix@ =~= s@.take(prefix@.len() as int));
    true
}

} // verus!
