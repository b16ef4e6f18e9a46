//! Character-level helpers shared by the framing engine and the configuration model.

use vstd::prelude::*;

verus! {

/// Relies on `String::push`: appends one character at the end.
pub assume_specification[ String::push ](s: &mut String, ch: char)
    ensures
        final(s)@ == old(s)@.push(ch),
;

/// Copies the characters of `s` into a vector.
pub fn chars_of(s: &str) -> (r: Vec<char>)
    ensures
        r@ == s@,
{
    let mut r: Vec<char> = Vec::new();
    for c in it: s.chars()
        invariant
            r@ == it.seq().take(it.index() as int),
    {
        r.push(c);
    }
    r
}

/// Builds a string from a slice of characters.
pub fn string_of(cs: &[char]) -> (r: String)
    ensures
        r@ == cs@,
{
    let mut r = String::new();
    let mut i: usize = 0;
    while i < cs.len()
        invariant
            i <= cs@.len(),
            r@ == cs@.take(i as int),
        decreases cs@.len() - i,
    {
        r.push(cs[i]);
        proof {
            assert(cs@.take(i + 1) =~= cs@.take(i as int).push(cs@[i as int]));
        }
        i = i + 1;
    }
    proof {
        assert(cs@.take(cs@.len() as int) =~= cs@);
    }
    r
}


/// `t` stands in `s` starting at position `i`.
pub open spec fn occurs_at(s: Seq<char>, t: Seq<char>, i: int) -> bool {
    0 <= i && i + t.len() <= s.len() && s.subrange(i, i + t.len()) == t
}

/// `t` stands somewhere in `s`.
pub open spec fn contains(s: Seq<char>, t: Seq<char>) -> bool {
    exists|i: int| occurs_at(s, t, i)
}

/// The first position at or after `k` where `t` stands in `s`.
pub open spec fn index_from(s: Seq<char>, t: Seq<char>, k: int) -> Option<int>
    decreases s.len() + 1 - k,
{
    if k < 0 || k > s.len() || k + t.len() > s.len() {
        None
    } else if occurs_at(s, t, k) {
        Some(k)
    } else {
        index_from(s, t, k + 1)
    }
}

/// The first position where `t` stands in `s`.
pub open spec fn index_of(s: Seq<char>, t: Seq<char>) -> Option<int> {
    index_from(s, t, 0)
}

/// `index_from` finds the first occurrence at or after `k`, and only that.
pub proof fn lemma_index_from(s: Seq<char>, t: Seq<char>, k: int)
    requires
        0 <= k,
    ensures
        match index_from(s, t, k) {
            Some(i) => k <= i && occurs_at(s, t, i) && forall|j: int|
                k <= j < i ==> !occurs_at(s, t, j),
            None => forall|j: int| k <= j ==> !occurs_at(s, t, j),
        },
    decreases s.len() + 1 - k,
{
    if k > s.len() || k + t.len() > s.len() {
    } else if occurs_at(s, t, k) {
    } else {
        lemma_index_from(s, t, k + 1);
    }
}

/// `index_of` finds a position exactly when `t` stands in `s`, and then the first one.
pub proof fn lemma_index_of(s: Seq<char>, t: Seq<char>)
    ensures
        index_of(s, t) is Some <==> contains(s, t),
        index_of(s, t) matches Some(i) ==> occurs_at(s, t, i) && forall|j: int|
            0 <= j < i ==> !occurs_at(s, t, j),
{
    lemma_index_from(s, t, 0);
    if let Some(i) = index_of(s, t) {
        assert(occurs_at(s, t, i));
    }
}

/// Whether `needle` stands in `hay` at position `k`.
pub fn matches_at(hay: &[char], needle: &[char], k: usize) -> (r: bool)
    ensures
        r == occurs_at(hay@, needle@, k as int),
{
    if k > hay.len() || needle.len() > hay.len() - k {
        return false;
    }
    let mut i: usize = 0;
    while i < needle.len()
        invariant
            i <= needle@.len(),
            k + needle.len() <= hay.len(),
            forall|j: int| 0 <= j < i ==> hay@[k + j] == needle@[j],
        decreases needle@.len() - i,
    {
        assert(k + i < hay@.len());
        if hay[k + i] != needle[i] {
            proof {
                assert(hay@.subrange(k as int, k + needle@.len())[i as int] != needle@[i as int]);
            }
            return false;
        }
        i = i + 1;
    }
    proof {
        assert(hay@.subrange(k as int, k + needle@.len()) =~= needle@);
    }
    true
}

/// The first position at or after `from` where `needle` stands in `hay`.
pub fn find_from(hay: &[char], needle: &[char], from: usize) -> (r: Option<usize>)
    ensures
        r matches Some(i) ==> index_from(hay@, needle@, from as int) == Some(i as int),
        r is None ==> index_from(hay@, needle@, from as int) is None,
{
    if needle.len() > hay.len() || from > hay.len() - needle.len() {
        return None;
    }
    let last: usize = hay.len() - needle.len();
    let mut k: usize = from;
    while k <= last
        invariant
            from <= k,
            last + needle@.len() == hay@.len(),
            index_from(hay@, needle@, from as int) == index_from(hay@, needle@, k as int),
        decreases last + 1 - k,
    {
        if matches_at(hay, needle, k) {
            return Some(k);
        }
        if k == last {
            assert(index_from(hay@, needle@, k + 1) is None);
            return None;
        }
        k = k + 1;
    }
    None
}


/// Copies `s[from..to]` into a new vector.
pub fn copy_range(s: &[char], from: usize, to: usize) -> (r: Vec<char>)
    requires
        from <= to <= s@.len(),
    ensures
        r@ == s@.subrange(from as int, to as int),
{
    let mut r: Vec<char> = Vec::new();
    let mut i: usize = from;
    while i < to
        invariant
            from <= i <= to <= s@.len(),
            r@ == s@.subrange(from as int, i as int),
        decreases to - i,
    {
        r.push(s[i]);
        proof {
            assert(s@.subrange(from as int, i + 1) =~= s@.subrange(from as int, i as int).push(
                s@[i as int],
            ));
        }
        i = i + 1;
    }
    r
}


/// Where `t` stands at `i` and nowhere before, `index_of` finds `i`.
pub proof fn lemma_index_of_first(s: Seq<char>, t: Seq<char>, i: int)
    requires
        occurs_at(s, t, i),
        forall|j: int| 0 <= j < i ==> !occurs_at(s, t, j),
    ensures
        index_of(s, t) == Some(i),
{
    lemma_index_of(s, t);
    assert(contains(s, t));
}

/// Where `t` stands nowhere in `s` before `i`, it stands nowhere in the first
/// `i` characters.
pub proof fn lemma_prefix_free(s: Seq<char>, t: Seq<char>, i: int)
    requires
        0 <= i <= s.len(),
        t.len() > 0,
        forall|j: int| 0 <= j < i ==> !occurs_at(s, t, j),
    ensures
        !contains(s.take(i), t),
{
    assert forall|j: int| !occurs_at(s.take(i), t, j) by {
        if occurs_at(s.take(i), t, j) {
            assert(s.take(i).subrange(j, j + t.len()) =~= s.subrange(j, j + t.len()));
            assert(occurs_at(s, t, j));
        }
    }
}


/// `a` followed by `b`.
pub fn cat(a: &str, b: &str) -> (r: String)
    ensures
        r@ == a@ + b@,
{
    let mut v = chars_of(a);
    let mut w = chars_of(b);
    v.append(&mut w);
    string_of(v.as_slice())
}

/// `s` begins with `p`.
pub open spec fn starts_with(s: Seq<char>, p: Seq<char>) -> bool {
    p.len() <= s.len() && s.take(p.len() as int) == p
}

/// Whether `s` begins with `p`.
pub fn has_prefix(s: &str, p: &str) -> (r: bool)
    ensures
        r == starts_with(s@, p@),
{
    let sv = chars_of(s);
    let pv = chars_of(p);
    let r = matches_at(sv.as_slice(), pv.as_slice(), 0);
    proof {
        if r {
            assert(sv@.subrange(0, pv@.len() as int) =~= sv@.take(pv@.len() as int));
        } else if pv@.len() <= sv@.len() {
            assert(sv@.subrange(0, pv@.len() as int) =~= sv@.take(pv@.len() as int));
        }
    }
    r
}

/// The length of the longest beginning of `t`, no longer than `k` and shorter
/// than `t`, that `s` ends with.
pub open spec fn overlap_from(s: Seq<char>, t: Seq<char>, k: int) -> int
    decreases k,
{
    if k <= 0 {
        0
    } else if k < t.len() && k <= s.len() && s.subrange(s.len() - k, s.len() as int) == t.take(k) {
        k
    } else {
        overlap_from(s, t, k - 1)
    }
}

/// The length of the longest proper beginning of `t` that `s` ends with: the
/// part of `s` that may be the start of `t` split across two reads.
pub open spec fn overlap(s: Seq<char>, t: Seq<char>) -> int {
    overlap_from(s, t, t.len() - 1)
}

pub proof fn lemma_overlap_from(s: Seq<char>, t: Seq<char>, k: int)
    ensures
        0 <= overlap_from(s, t, k) <= s.len(),
        overlap_from(s, t, k) == 0 || overlap_from(s, t, k) < t.len(),
    decreases k,
{
    if k > 0 {
        lemma_overlap_from(s, t, k - 1);
    }
}

/// How much of the end of `s` may begin `t`.
pub fn overlap_len(s: &[char], t: &[char]) -> (r: usize)
    ensures
        r == overlap(s@, t@),
{
    if t.len() == 0 {
        return 0;
    }
    let mut k: usize = t.len() - 1;
    while k > 0
        invariant
            k < t@.len(),
            overlap(s@, t@) == overlap_from(s@, t@, k as int),
        decreases k,
    {
        if k <= s.len() {
            let p = copy_range(t, 0, k);
            if matches_at(s, p.as_slice(), s.len() - k) {
                return k;
            }
        }
        k = k - 1;
    }
    0
}

} // verus!
