//! Character-level helpers on strings.

use vstd::prelude::*;
use vstd::string::*;

verus! {

broadcast use vstd::string::axiom_spec_iter;

/// The characters of `s`, in order.
pub fn chars_of(s: &str) -> (v: Vec<char>)
    ensures
        v@ == s@,
{
    let mut v: Vec<char> = Vec::new();
    for c in it: s.chars()
        invariant
            v@ == it.seq().take(it.index()),
    {
        v.push(c);
    }
    v
}

/// `String::push` of std: appends one character at the end of the string.
#[verifier::external_body]
pub(crate) fn push_char(s: &mut String, c: char)
    ensures
        final(s)@ == old(s)@.push(c),
{
    s.push(c);
}

/// `String::push_str` of std: appends the characters of `other` at the end of the string.
#[verifier::external_body]
pub(crate) fn push_str(s: &mut String, other: &str)
    ensures
        final(s)@ == old(s)@ + other@,
{
    s.push_str(other);
}

/// The views of a sequence of strings.
pub open spec fn views(lines: Seq<String>) -> Seq<Seq<char>> {
    lines.map_values(|l: String| l@)
}

/// A new string made of the characters `v[lo..hi]`.
pub fn string_from_range(v: &Vec<char>, lo: usize, hi: usize) -> (s: String)
    requires
        lo <= hi <= v.len(),
    ensures
        s@ == v@.subrange(lo as int, hi as int),
{
    let mut s = String::new();
    let mut i = lo;
    while i < hi
        invariant
            lo <= i <= hi <= v.len(),
            s@ == v@.subrange(lo as int, i as int),
        decreases hi - i,
    {
        push_char(&mut s, v[i]);
        i = i + 1;
        assert(s@ == v@.subrange(lo as int, i as int));
    }
    s
}

/// Index of the first space of `s`, or its length where it holds none.
pub open spec fn first_space(s: Seq<char>) -> nat
    decreases s.len(),
{
    if s.len() == 0 {
        0
    } else if s[0] == ' ' {
        0
    } else {
        1 + first_space(s.drop_first())
    }
}

/// `s` holds no space.
pub open spec fn space_free(s: Seq<char>) -> bool {
    forall|k: int| 0 <= k < s.len() ==> s[k] != ' '
}

/// What `first_space` is: every character before it is no space, and it is
/// either the length or the position of a space.
pub proof fn lemma_first_space(s: Seq<char>)
    ensures
        first_space(s) <= s.len(),
        forall|k: int| 0 <= k < first_space(s) ==> s[k] != ' ',
        first_space(s) < s.len() ==> s[first_space(s) as int] == ' ',
        space_free(s) <==> first_space(s) == s.len(),
    decreases s.len(),
{
    if s.len() > 0 && s[0] != ' ' {
        lemma_first_space(s.drop_first());
        assert forall|k: int| 0 <= k < first_space(s) implies s[k] != ' ' by {
            if k > 0 {
                assert(s[k] == s.drop_first()[k - 1]);
            }
        }
        if space_free(s) {
            assert forall|k: int| 0 <= k < s.drop_first().len() implies s.drop_first()[k] != ' ' by {
                assert(s.drop_first()[k] == s[k + 1]);
            }
        }
    }
}

/// The first space of `s` is at `i` when `s[i]` is a space and none stands before it.
pub proof fn lemma_first_space_at(s: Seq<char>, i: int)
    requires
        0 <= i <= s.len(),
        forall|k: int| 0 <= k < i ==> s[k] != ' ',
        i < s.len() ==> s[i] == ' ',
    ensures
        first_space(s) == i,
{
    lemma_first_space(s);
    if first_space(s) < i {
        assert(s[first_space(s) as int] == ' ');
    }
    if i < first_space(s) {
        assert(s[i] != ' ');
    }
}

/// Index of the first space of `v[lo..]`, counted from `lo`, or `v.len()`.
pub fn find_space(v: &Vec<char>, lo: usize) -> (i: usize)
    requires
        lo <= v.len(),
    ensures
        i == lo + first_space(v@.subrange(lo as int, v.len() as int)),
{
    let mut i = lo;
    while i < v.len() && v[i] != ' '
        invariant
            lo <= i <= v.len(),
            forall|k: int| lo <= k < i ==> v@[k] != ' ',
        decreases v.len() - i,
    {
        i = i + 1;
    }
    proof {
        let t = v@.subrange(lo as int, v.len() as int);
        lemma_first_space_at(t, i - lo);
    }
    i
}

/// `s` ends with `suffix`.
pub open spec fn ends_with(s: Seq<char>, suffix: Seq<char>) -> bool {
    suffix.len() <= s.len() && s.subrange(s.len() - suffix.len(), s.len() as int) == suffix
}

/// A string ends with `suffix` exactly when it is something followed by `suffix`.
pub proof fn lemma_ends_with_concat(prefix: Seq<char>, suffix: Seq<char>, s: Seq<char>)
    ensures
        ends_with(prefix + suffix, suffix),
        ends_with(s, suffix) ==> s == s.subrange(0, s.len() - suffix.len()) + suffix,
{
    assert((prefix + suffix).subrange(prefix.len() as int, (prefix + suffix).len() as int) =~= suffix);
    if ends_with(s, suffix) {
        assert(s =~= s.subrange(0, s.len() - suffix.len()) + suffix);
    }
}

/// Whether `s` ends with `suffix`.
pub fn chars_end_with(s: &Vec<char>, suffix: &Vec<char>) -> (b: bool)
    ensures
        b == ends_with(s@, suffix@),
{
    if suffix.len() > s.len() {
        return false;
    }
    let off = s.len() - suffix.len();
    let mut k: usize = 0;
    while k < suffix.len()
        invariant
            off + suffix.len() == s.len(),
            0 <= k <= suffix.len(),
            forall|m: int| 0 <= m < k ==> s@[off + m] == suffix@[m],
        decreases suffix.len() - k,
    {
        if s[off + k] != suffix[k] {
            assert(s@.subrange(off as int, s.len() as int)[k as int] != suffix@[k as int]);
            return false;
        }
        k = k + 1;
    }
    assert(s@.subrange(off as int, s.len() as int) =~= suffix@);
    true
}

} // verus!
