//! Character scanning: finding the first occurrence of a separator in a
//! string, and exact string equality.  The request-line tokenizer and the
//! query-string splitter are both built on these.

use vstd::prelude::*;

verus! {

/// The set holding the two given characters (which may coincide).
pub open spec fn pair_set(c1: char, c2: char) -> Set<char> {
    set![c1, c2]
}

/// Index of the first character of `s` that lies in `cs`, or `s.len()` if no
/// character of `s` does.
pub open spec fn first_in(s: Seq<char>, cs: Set<char>) -> int
    decreases s.len(),
{
    if s.len() == 0 {
        0
    } else if cs.contains(s[0]) {
        0
    } else {
        1 + first_in(s.drop_first(), cs)
    }
}

/// `first_in` lies between 0 and `s.len()`, points at a character of `cs`
/// whenever it is in range, and nothing before it lies in `cs`.
pub proof fn lemma_first_in_props(s: Seq<char>, cs: Set<char>)
    ensures
        0 <= first_in(s, cs) <= s.len(),
        first_in(s, cs) < s.len() ==> cs.contains(s[first_in(s, cs)]),
        forall|j: int| 0 <= j < first_in(s, cs) ==> !cs.contains(#[trigger] s[j]),
    decreases s.len(),
{
    if s.len() == 0 {
    } else if cs.contains(s[0]) {
    } else {
        lemma_first_in_props(s.drop_first(), cs);
        assert forall|j: int| 0 <= j < first_in(s, cs) implies !cs.contains(#[trigger] s[j]) by {
            if j > 0 {
                assert(s.drop_first()[j - 1] == s[j]);
            }
        }
    }
}

/// A character of `cs` at position `i` with none of `cs` before it is exactly
/// the first occurrence.
pub proof fn lemma_first_in_at(s: Seq<char>, cs: Set<char>, i: int)
    requires
        0 <= i < s.len(),
        cs.contains(s[i]),
        forall|j: int| 0 <= j < i ==> !cs.contains(#[trigger] s[j]),
    ensures
        first_in(s, cs) == i,
    decreases i,
{
    if i == 0 {
    } else {
        assert forall|j: int| 0 <= j < i - 1 implies !cs.contains(#[trigger] s.drop_first()[j]) by {
            assert(s.drop_first()[j] == s[j + 1]);
        }
        assert(s.drop_first()[i - 1] == s[i]);
        lemma_first_in_at(s.drop_first(), cs, i - 1);
    }
}

/// When no character of `s` lies in `cs`, the first occurrence is `s.len()`.
pub proof fn lemma_first_in_none(s: Seq<char>, cs: Set<char>)
    requires
        forall|j: int| 0 <= j < s.len() ==> !cs.contains(#[trigger] s[j]),
    ensures
        first_in(s, cs) == s.len(),
    decreases s.len(),
{
    if s.len() == 0 {
    } else {
        assert forall|j: int| 0 <= j < s.drop_first().len() implies !cs.contains(
            #[trigger] s.drop_first()[j],
        ) by {
            assert(s.drop_first()[j] == s[j + 1]);
        }
        lemma_first_in_none(s.drop_first(), cs);
    }
}

/// Position of the first occurrence of `c1` or `c2` in `s`, if either occurs.
pub fn find_first_of(s: &str, c1: char, c2: char) -> (r: Option<usize>)
    ensures
        match r {
            Some(i) => i == first_in(s@, pair_set(c1, c2)) && i < s@.len(),
            None => first_in(s@, pair_set(c1, c2)) == s@.len(),
        },
{
    let n = s.unicode_len();
    let mut i: usize = 0;
    while i < n
        invariant
            n == s@.len(),
            0 <= i <= n,
            forall|j: int| 0 <= j < i ==> !pair_set(c1, c2).contains(#[trigger] s@[j]),
        decreases n - i,
    {
        let c = s.get_char(i);
        if c == c1 || c == c2 {
            proof {
                lemma_first_in_at(s@, pair_set(c1, c2), i as int);
            }
            return Some(i);
        }
        assert(!pair_set(c1, c2).contains(s@[i as int]));
        i = i + 1;
    }
    proof {
        lemma_first_in_none(s@, pair_set(c1, c2));
    }
    None
}

/// Character-by-character equality of two string slices.
pub fn str_eq(a: &str, b: &str) -> (r: bool)
    ensures
        r == (a@ == b@),
{
    let na = a.unicode_len();
    let nb = b.unicode_len();
    if na != nb {
        return false;
    }
    let mut i: usize = 0;
    while i < na
        invariant
            na == a@.len(),
            nb == b@.len(),
            na == nb,
            0 <= i <= na,
            forall|j: int| 0 <= j < i ==> a@[j] == b@[j],
        decreases na - i,
    {
        let ca = a.get_char(i);
        let cb = b.get_char(i);
        if ca != cb {
            return false;
        }
        i = i + 1;
    }
    proof {
        assert(a@ =~= b@);
    }
    true
}

} // verus!
