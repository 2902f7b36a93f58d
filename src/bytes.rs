//! Searching byte strings: prefixes, the first occurrence of a byte, or of either of
//! two bytes.
use vstd::prelude::*;

verus! {

/// Whether `s` begins with `p`.
pub open spec fn has_prefix<A>(s: Seq<A>, p: Seq<A>) -> bool {
    p.len() <= s.len() && s.subrange(0, p.len() as int) == p
}

/// Whether `s` begins with `p`.
pub fn starts_with(s: &[u8], p: &[u8]) -> (r: bool)
    ensures
        r == has_prefix(s@, p@),
{
    if p.len() > s.len() {
        return false;
    }
    let mut i: usize = 0;
    while i < p.len()
        invariant
            p@.len() <= s@.len(),
            i <= p@.len(),
            forall|k: int| 0 <= k < i ==> s@[k] == p@[k],
        decreases p@.len() - i,
    {
        if s[i] != p[i] {
            assert(s@.subrange(0, p@.len() as int)[i as int] != p@[i as int]);
            return false;
        }
        i = i + 1;
    }
    assert(s@.subrange(0, p@.len() as int) =~= p@);
    true
}

/// The index of the first `b` in `s` at or after `from`.
pub open spec fn find_from(s: Seq<u8>, from: int, b: u8) -> Option<int>
    decreases s.len() - from,
{
    if from < 0 || from >= s.len() {
        None
    } else if s[from] == b {
        Some(from)
    } else {
        find_from(s, from + 1, b)
    }
}

/// The index of the first `a` or `b` in `s` at or after `from`.
pub open spec fn find_either_from(s: Seq<u8>, from: int, a: u8, b: u8) -> Option<int>
    decreases s.len() - from,
{
    if from < 0 || from >= s.len() {
        None
    } else if s[from] == a || s[from] == b {
        Some(from)
    } else {
        find_either_from(s, from + 1, a, b)
    }
}

/// Relies on memchr::memchr: the index of the first occurrence of `needle`, if any.
#[verifier::external_body]
fn memchr_first(needle: u8, haystack: &[u8]) -> (r: Option<usize>)
    ensures
        match r {
            Some(i) => i < haystack@.len() && haystack@[i as int] == needle && forall|k: int|
                0 <= k < i ==> haystack@[k] != needle,
            None => forall|k: int| 0 <= k < haystack@.len() ==> haystack@[k] != needle,
        },
{
    memchr::memchr(needle, haystack)
}

/// Relies on memchr::memchr2: the index of the first occurrence of either needle, if any.
#[verifier::external_body]
fn memchr2_first(needle1: u8, needle2: u8, haystack: &[u8]) -> (r: Option<usize>)
    ensures
        match r {
            Some(i) => i < haystack@.len() && (haystack@[i as int] == needle1 || haystack@[i as int]
                == needle2) && forall|k: int|
                0 <= k < i ==> haystack@[k] != needle1 && haystack@[k] != needle2,
            None => forall|k: int|
                0 <= k < haystack@.len() ==> haystack@[k] != needle1 && haystack@[k] != needle2,
        },
{
    memchr::memchr2(needle1, needle2, haystack)
}

pub proof fn lemma_find_from(s: Seq<u8>, from: int, b: u8, found: Option<int>)
    requires
        0 <= from <= s.len(),
        match found {
            Some(i) => from <= i < s.len() && s[i] == b && forall|k: int|
                from <= k < i ==> s[k] != b,
            None => forall|k: int| from <= k < s.len() ==> s[k] != b,
        },
    ensures
        find_from(s, from, b) == found,
    decreases s.len() - from,
{
    if from < s.len() && s[from] != b {
        lemma_find_from(s, from + 1, b, found);
    }
}

pub proof fn lemma_find_either_from(s: Seq<u8>, from: int, a: u8, b: u8, found: Option<int>)
    requires
        0 <= from <= s.len(),
        match found {
            Some(i) => from <= i < s.len() && (s[i] == a || s[i] == b) && forall|k: int|
                from <= k < i ==> s[k] != a && s[k] != b,
            None => forall|k: int| from <= k < s.len() ==> s[k] != a && s[k] != b,
        },
    ensures
        find_either_from(s, from, a, b) == found,
    decreases s.len() - from,
{
    if from < s.len() && s[from] != a && s[from] != b {
        lemma_find_either_from(s, from + 1, a, b, found);
    }
}

/// The index of the first `b` in `s` at or after `from`.
pub fn find_byte(s: &[u8], from: usize, b: u8) -> (r: Option<usize>)
    requires
        from <= s@.len(),
    ensures
        match r {
            Some(i) => from <= i < s@.len() && find_from(s@, from as int, b) == Some(i as int),
            None => find_from(s@, from as int, b) is None,
        },
{
    let rest = &s[from..s.len()];
    match memchr_first(b, rest) {
        Some(i) => {
            proof {
                assert forall|k: int| from <= k < from + i implies s@[k] != b by {
                    assert(s@[k] == rest@[k - from]);
                }
                assert(s@[from + i] == rest@[i as int]);
                lemma_find_from(s@, from as int, b, Some(from + i));
            }
            Some(from + i)
        },
        None => {
            proof {
                assert forall|k: int| from <= k < s@.len() implies s@[k] != b by {
                    assert(s@[k] == rest@[k - from]);
                }
                lemma_find_from(s@, from as int, b, None);
            }
            None
        },
    }
}

/// The index of the first `a` or `b` in `s` at or after `from`.
pub fn find_either(s: &[u8], from: usize, a: u8, b: u8) -> (r: Option<usize>)
    requires
        from <= s@.len(),
    ensures
        match r {
            Some(i) => from <= i < s@.len() && find_either_from(s@, from as int, a, b) == Some(
                i as int,
            ),
            None => find_either_from(s@, from as int, a, b) is None,
        },
{
    let rest = &s[from..s.len()];
    match memchr2_first(a, b, rest) {
        Some(i) => {
            proof {
                assert forall|k: int| from <= k < from + i implies s@[k] != a && s@[k] != b by {
                    assert(s@[k] == rest@[k - from]);
                }
                assert(s@[from + i] == rest@[i as int]);
                lemma_find_either_from(s@, from as int, a, b, Some(from + i));
            }
            Some(from + i)
        },
        None => {
            proof {
                assert forall|k: int| from <= k < s@.len() implies s@[k] != a && s@[k] != b by {
                    assert(s@[k] == rest@[k - from]);
                }
                lemma_find_either_from(s@, from as int, a, b, None);
            }
            None
        },
    }
}

} // verus!
