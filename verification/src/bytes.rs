//! Searching byte strings.
use vstd::prelude::*;

verus! {

/// Whether `n` occurs in `h` at position `i`.
pub open spec fn occurs_at(h: Seq<u8>, n: Seq<u8>, i: int) -> bool {
    0 <= i && i + n.len() <= h.len() && h.subrange(i, i + n.len()) == n
}

/// The first position at which `n` occurs in `h` (what
/// `h.windows(n.len()).position(|w| w == n)` finds).
#[verifier::opaque]
pub open spec fn find_sub(h: Seq<u8>, n: Seq<u8>) -> Option<int> {
    if exists|i: int| occurs_at(h, n, i) {
        Some(choose|i: int| occurs_at(h, n, i) && forall|j: int| 0 <= j < i ==> !occurs_at(h, n, j))
    } else {
        None
    }
}

pub proof fn lemma_find_sub_first(h: Seq<u8>, n: Seq<u8>, i: int)
    requires
        occurs_at(h, n, i),
        forall|j: int| 0 <= j < i ==> !occurs_at(h, n, j),
    ensures
        find_sub(h, n) == Some(i),
{
    reveal(find_sub);
    let k = choose|k: int| occurs_at(h, n, k) && forall|j: int| 0 <= j < k ==> !occurs_at(h, n, j);
    assert(occurs_at(h, n, k) && forall|j: int| 0 <= j < k ==> !occurs_at(h, n, j));
    if k < i {
        assert(!occurs_at(h, n, k));
    }
    if i < k {
        assert(!occurs_at(h, n, i));
    }
}

pub proof fn lemma_find_sub_props(h: Seq<u8>, n: Seq<u8>)
    ensures
        find_sub(h, n) matches Some(i) ==> occurs_at(h, n, i) && forall|j: int|
            0 <= j < i ==> !occurs_at(h, n, j),
        find_sub(h, n) is None ==> forall|j: int| !occurs_at(h, n, j),
{
    reveal(find_sub);
    if exists|i: int| occurs_at(h, n, i) {
        let w = choose|i: int| occurs_at(h, n, i);
        lemma_least_occurrence(h, n, w);
    }
}

proof fn lemma_least_occurrence(h: Seq<u8>, n: Seq<u8>, w: int)
    requires
        occurs_at(h, n, w),
    ensures
        exists|i: int| occurs_at(h, n, i) && forall|j: int| 0 <= j < i ==> !occurs_at(h, n, j),
    decreases w,
{
    if exists|j: int| 0 <= j < w && occurs_at(h, n, j) {
        let j = choose|j: int| 0 <= j < w && occurs_at(h, n, j);
        lemma_least_occurrence(h, n, j);
    } else {
        assert(occurs_at(h, n, w) && forall|j: int| 0 <= j < w ==> !occurs_at(h, n, j));
    }
}

/// Whether `n` occurs in `h` at position `i`.
fn matches_at(h: &[u8], n: &[u8], i: usize) -> (r: bool)
    requires
        i + n.len() <= h.len(),
    ensures
        r == occurs_at(h@, n@, i as int),
{
    let mut k: usize = 0;
    while k < n.len()
        invariant
            k <= n.len(),
            i + n.len() <= h.len(),
            forall|j: int| 0 <= j < k ==> h@[i + j] == n@[j],
        decreases n.len() - k,
    {
        if h[i + k] != n[k] {
            assert(h@.subrange(i as int, i + n.len())[k as int] != n@[k as int]);
            return false;
        }
        k = k + 1;
    }
    assert(h@.subrange(i as int, i + n.len()) =~= n@);
    true
}

/// The first position at which `needle` occurs in `haystack`.
pub fn find_subsequence(haystack: &[u8], needle: &[u8]) -> (r: Option<usize>)
    requires
        needle.len() > 0,
    ensures
        r matches Some(i) ==> find_sub(haystack@, needle@) == Some(i as int),
        r is None ==> find_sub(haystack@, needle@) is None,
{
    if needle.len() > haystack.len() {
        proof {
            lemma_find_sub_props(haystack@, needle@);
        }
        return None;
    }
    let last = haystack.len() - needle.len();
    let mut i: usize = 0;
    while i <= last
        invariant
            last + needle.len() == haystack.len(),
            needle.len() > 0,
            i <= last + 1,
            forall|j: int| 0 <= j < i ==> !occurs_at(haystack@, needle@, j),
        decreases last + 1 - i,
    {
        if matches_at(haystack, needle, i) {
            proof {
                lemma_find_sub_first(haystack@, needle@, i as int);
            }
            return Some(i);
        }
        i = i + 1;
    }
    proof {
        assert forall|j: int| !occurs_at(haystack@, needle@, j) by {
            if 0 <= j < i {
            }
        }
        lemma_find_sub_props(haystack@, needle@);
    }
    None
}

/// The first position, counted from `from`, at which `needle` occurs in
/// `haystack[from..]`.
pub fn find_subsequence_from(haystack: &[u8], from: usize, needle: &[u8]) -> (r: Option<usize>)
    requires
        needle.len() > 0,
        from <= haystack.len(),
    ensures
        r matches Some(i) ==> find_sub(haystack@.skip(from as int), needle@) == Some(i as int),
        r is None ==> find_sub(haystack@.skip(from as int), needle@) is None,
{
    let ghost h = haystack@.skip(from as int);
    if needle.len() > haystack.len() - from {
        proof {
            lemma_find_sub_props(h, needle@);
        }
        return None;
    }
    let last = haystack.len() - needle.len();
    let mut i: usize = from;
    while i <= last
        invariant
            last + needle.len() == haystack.len(),
            needle.len() > 0,
            from <= i <= last + 1,
            h == haystack@.skip(from as int),
            forall|j: int| 0 <= j < i - from ==> !occurs_at(h, needle@, j),
        decreases last + 1 - i,
    {
        if matches_at(haystack, needle, i) {
            proof {
                assert(h.subrange(i - from, i - from + needle.len()) =~= haystack@.subrange(
                    i as int,
                    i + needle.len(),
                ));
                lemma_find_sub_first(h, needle@, i - from);
            }
            return Some(i - from);
        }
        proof {
            assert(h.subrange(i - from, i - from + needle.len()) =~= haystack@.subrange(
                i as int,
                i + needle.len(),
            ));
        }
        i = i + 1;
    }
    proof {
        assert forall|j: int| !occurs_at(h, needle@, j) by {
            if 0 <= j < i - from {
            }
        }
        lemma_find_sub_props(h, needle@);
    }
    None
}

/// A copy of `s[from..to]`.
pub fn slice_bytes(s: &[u8], from: usize, to: usize) -> (r: Vec<u8>)
    requires
        from <= to <= s.len(),
    ensures
        r@ == s@.subrange(from as int, to as int),
{
    let mut r: Vec<u8> = Vec::new();
    let mut i = from;
    while i < to
        invariant
            from <= i <= to <= s.len(),
            r@ == s@.subrange(from as int, i as int),
        decreases to - i,
    {
        r.push(s[i]);
        i = i + 1;
        assert(s@.subrange(from as int, i as int) == s@.subrange(from as int, (i - 1) as int).push(
            s@[i - 1],
        ));
    }
    r
}

/// Appends the bytes `s` to `v`.
pub fn push_bytes(v: &mut Vec<u8>, s: &[u8])
    ensures
        final(v)@ == old(v)@ + s@,
{
    let ghost start = v@;
    let mut i: usize = 0;
    while i < s.len()
        invariant
            i <= s.len(),
            v@ == start + s@.take(i as int),
        decreases s.len() - i,
    {
        v.push(s[i]);
        i = i + 1;
        assert(s@.take(i as int) == s@.take((i - 1) as int).push(s@[i - 1]));
    }
    assert(s@.take(i as int) == s@);
}

} // verus!
