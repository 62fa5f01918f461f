//! Small byte-sequence helpers shared by the scanner, the tree decoder and
//! the renderers, each proved against a direct sequence-level specification.

use vstd::prelude::*;

verus! {

/// ASCII whitespace, as the cross-reference grammar understands it.
pub open spec fn spec_is_ws(b: u8) -> bool {
    b == 32 || b == 9 || b == 10 || b == 13 || b == 11 || b == 12
}

/// Executable form of `spec_is_ws`.
pub fn is_ws(b: u8) -> (r: bool)
    ensures
        r == spec_is_ws(b),
{
    b == 32 || b == 9 || b == 10 || b == 13 || b == 11 || b == 12
}

/// True when `p` is a prefix of `s`.
pub open spec fn spec_starts_with(s: Seq<u8>, p: Seq<u8>) -> bool {
    p.len() <= s.len() && s.subrange(0, p.len() as int) == p
}

/// True when `p` is a suffix of `s`.
pub open spec fn spec_ends_with(s: Seq<u8>, p: Seq<u8>) -> bool {
    p.len() <= s.len() && s.subrange(s.len() - p.len(), s.len() as int) == p
}

pub fn starts_with(s: &[u8], p: &[u8]) -> (r: bool)
    ensures
        r == spec_starts_with(s@, p@),
{
    if p.len() > s.len() {
        assert(!spec_starts_with(s@, p@));
        return false;
    }
    let mut i: usize = 0;
    while i < p.len()
        invariant
            0 <= i <= p.len() <= s.len(),
            forall|k: int| 0 <= k < i ==> s@[k] == p@[k],
        decreases p.len() - i,
    {
        if s[i] != p[i] {
            assert(s@.subrange(0, p@.len() as int)[i as int] != p@[i as int]);
            return false;
        }
        i += 1;
    }
    assert(s@.subrange(0, p@.len() as int) =~= p@);
    true
}

pub fn ends_with(s: &[u8], p: &[u8]) -> (r: bool)
    ensures
        r == spec_ends_with(s@, p@),
{
    if p.len() > s.len() {
        assert(!spec_ends_with(s@, p@));
        return false;
    }
    let off = s.len() - p.len();
    let mut i: usize = 0;
    while i < p.len()
        invariant
            0 <= i <= p.len() <= s.len(),
            off == s.len() - p.len(),
            forall|k: int| 0 <= k < i ==> s@[off + k] == p@[k],
        decreases p.len() - i,
    {
        if s[off + i] != p[i] {
            assert(s@.subrange(s@.len() - p@.len(), s@.len() as int)[i as int] != p@[i as int]);
            return false;
        }
        i += 1;
    }
    assert(s@.subrange(s@.len() - p@.len(), s@.len() as int) =~= p@);
    true
}

/// Byte-wise equality of two slices.
pub fn eq_bytes(a: &[u8], b: &[u8]) -> (r: bool)
    ensures
        r == (a@ == b@),
{
    if a.len() != b.len() {
        assert(a@.len() != b@.len());
        return false;
    }
    let mut i: usize = 0;
    while i < a.len()
        invariant
            0 <= i <= a.len() == b.len(),
            forall|k: int| 0 <= k < i ==> a@[k] == b@[k],
        decreases a.len() - i,
    {
        if a[i] != b[i] {
            return false;
        }
        i += 1;
    }
    assert(a@ =~= b@);
    true
}

/// First match of `p` in `s` at a position `>= from`, scanning left to right.
pub open spec fn spec_find(s: Seq<u8>, p: Seq<u8>, from: int) -> Option<int>
    decreases s.len() + 1 - from,
{
    if from < 0 || from + p.len() > s.len() {
        None
    } else if s.subrange(from, from + p.len()) == p {
        Some(from)
    } else {
        spec_find(s, p, from + 1)
    }
}

pub fn find_subseq(s: &[u8], p: &[u8], from: usize) -> (r: Option<usize>)
    ensures
        (match r {
            Some(u) => spec_find(s@, p@, from as int) == Some(u as int),
            None => spec_find(s@, p@, from as int) is None,
        }),
        r is Some ==> from <= r->0 && r->0 + p@.len() <= s@.len(),
{
    if p.len() == 0 {
        if from <= s.len() {
            assert(s@.subrange(from as int, from as int) =~= p@);
            return Some(from);
        } else {
            return None;
        }
    }
    let mut i: usize = from;
    loop
        invariant
            from <= i,
            p@.len() >= 1,
            spec_find(s@, p@, from as int) == spec_find(s@, p@, i as int),
        decreases s.len() + 1 - i,
    {
        if i > s.len() || p.len() > s.len() - i {
            assert(spec_find(s@, p@, i as int) is None);
            return None;
        }
        let mut k: usize = 0;
        let mut hit = true;
        while k < p.len() && hit
            invariant
                0 <= k <= p.len(),
                i + p.len() <= s.len(),
                hit ==> forall|j: int| 0 <= j < k ==> s@[i + j] == p@[j],
                !hit ==> s@.subrange(i as int, i + p@.len()) != p@,
            decreases (if hit { 1int } else { 0int }), p.len() - k,
        {
            if s[i + k] != p[k] {
                assert(s@.subrange(i as int, i + p@.len())[k as int] != p@[k as int]);
                hit = false;
            } else {
                k += 1;
            }
        }
        if hit {
            assert(s@.subrange(i as int, i + p@.len()) =~= p@);
            assert(spec_find(s@, p@, i as int) == Some(i as int));
            return Some(i);
        }
        i += 1;
    }
}

/// Appends all of `src` to `dst`.
pub fn push_all(dst: &mut Vec<u8>, src: &[u8])
    ensures
        final(dst)@ == old(dst)@ + src@,
{
    let mut k: usize = 0;
    while k < src.len()
        invariant
            0 <= k <= src.len(),
            dst@ == old(dst)@ + src@.subrange(0, k as int),
        decreases src.len() - k,
    {
        dst.push(src[k]);
        assert(src@.subrange(0, k as int).push(src@[k as int]) =~= src@.subrange(0, k + 1));
        k += 1;
    }
    assert(src@.subrange(0, src@.len() as int) =~= src@);
}

/// Copies the byte range `[from, to)` of `s` into a fresh vector.
pub fn sub_vec(s: &[u8], from: usize, to: usize) -> (r: Vec<u8>)
    requires
        from <= to <= s@.len(),
    ensures
        r@ == s@.subrange(from as int, to as int),
{
    let mut out: Vec<u8> = Vec::new();
    let mut k: usize = from;
    while k < to
        invariant
            from <= k <= to <= s@.len(),
            out@ == s@.subrange(from as int, k as int),
        decreases to - k,
    {
        out.push(s[k]);
        assert(s@.subrange(from as int, k as int).push(s@[k as int]) =~= s@.subrange(
            from as int,
            k + 1,
        ));
        k += 1;
    }
    out
}

/// Index of the first non-whitespace byte at or after `i`.
pub open spec fn spec_skip_ws(s: Seq<u8>, i: int) -> int
    decreases s.len() - i,
{
    if i < 0 || i >= s.len() {
        i
    } else if spec_is_ws(s[i]) {
        spec_skip_ws(s, i + 1)
    } else {
        i
    }
}

pub fn skip_ws(s: &[u8], i: usize) -> (r: usize)
    requires
        i <= s@.len(),
    ensures
        r == spec_skip_ws(s@, i as int),
        i <= r <= s@.len(),
{
    let mut k: usize = i;
    while k < s.len() && is_ws(s[k])
        invariant
            i <= k <= s@.len(),
            spec_skip_ws(s@, i as int) == spec_skip_ws(s@, k as int),
        decreases s.len() - k,
    {
        k += 1;
    }
    k
}

/// The sequence with ASCII whitespace removed from both ends.
pub open spec fn spec_trim(s: Seq<u8>) -> Seq<u8>
    decreases s.len(),
{
    if s.len() == 0 {
        s
    } else if spec_is_ws(s[0]) {
        spec_trim(s.subrange(1, s.len() as int))
    } else if spec_is_ws(s[s.len() - 1]) {
        spec_trim(s.subrange(0, s.len() - 1))
    } else {
        s
    }
}

pub fn trim(s: &[u8]) -> (r: Vec<u8>)
    ensures
        r@ == spec_trim(s@),
{
    let mut lo: usize = 0;
    let mut hi: usize = s.len();
    assert(s@.subrange(0, s@.len() as int) =~= s@);
    while lo < hi && is_ws(s[lo])
        invariant
            0 <= lo <= hi <= s@.len(),
            hi == s@.len(),
            spec_trim(s@) == spec_trim(s@.subrange(lo as int, hi as int)),
        decreases hi - lo,
    {
        assert(s@.subrange(lo as int, hi as int).subrange(1, (hi - lo) as int) =~= s@.subrange(
            lo + 1,
            hi as int,
        ));
        lo += 1;
    }
    while lo < hi && is_ws(s[hi - 1])
        invariant
            0 <= lo <= hi <= s@.len(),
            spec_trim(s@) == spec_trim(s@.subrange(lo as int, hi as int)),
            lo < hi ==> !spec_is_ws(s@[lo as int]),
        decreases hi - lo,
    {
        assert(s@.subrange(lo as int, hi as int).subrange(0, (hi - lo - 1) as int) =~= s@.subrange(
            lo as int,
            hi - 1,
        ));
        hi -= 1;
    }
    let out = sub_vec(s, lo, hi);
    proof {
        if lo < hi {
            assert(!spec_is_ws(s@.subrange(lo as int, hi as int)[0]));
            assert(!spec_is_ws(s@.subrange(lo as int, hi as int)[(hi - lo - 1) as int]));
        }
    }
    out
}

/// True when some byte of `s` is ASCII whitespace.
pub open spec fn spec_has_ws(s: Seq<u8>) -> bool {
    exists|k: int| 0 <= k < s.len() && spec_is_ws(s[k])
}

pub fn has_ws(s: &[u8]) -> (r: bool)
    ensures
        r == spec_has_ws(s@),
{
    let mut k: usize = 0;
    while k < s.len()
        invariant
            0 <= k <= s@.len(),
            forall|j: int| 0 <= j < k ==> !spec_is_ws(s@[j]),
        decreases s.len() - k,
    {
        if is_ws(s[k]) {
            return true;
        }
        k += 1;
    }
    false
}

/// Decimal digits of `n`, most significant first.
pub open spec fn spec_dec(n: nat) -> Seq<u8>
    decreases n,
{
    if n < 10 {
        seq![(48 + n) as u8]
    } else {
        spec_dec(n / 10).push((48 + n % 10) as u8)
    }
}

/// Renders `n` in decimal ASCII.
pub fn dec_bytes(n: usize) -> (r: Vec<u8>)
    ensures
        r@ == spec_dec(n as nat),
{
    let mut digits: Vec<u8> = Vec::new();
    let mut m: usize = n;
    while m >= 10
        invariant
            spec_dec(n as nat) == spec_dec(m as nat) + digits@,
        decreases m,
    {
        let d: u8 = (m % 10) as u8;
        let mut next: Vec<u8> = Vec::new();
        next.push(48 + d);
        let ghost prev = digits@;
        push_all(&mut next, digits.as_slice());
        digits = next;
        assert(digits@ =~= seq![(48 + (m as nat) % 10) as u8] + prev);
        m = m / 10;
        assert(spec_dec(n as nat) =~= spec_dec(m as nat) + digits@);
    }
    let mut out: Vec<u8> = Vec::new();
    out.push(48 + (m % 10) as u8);
    push_all(&mut out, digits.as_slice());
    assert(m < 10);
    assert(spec_dec(m as nat) =~= seq![(48 + (m as nat)) as u8]);
    assert(out@ =~= spec_dec(m as nat) + digits@);
    out
}

} // verus!

use vstd::string::StringSliceAdditionalSpecFns;

verus! {

/// The UTF-8 bytes of a string slice, as a spec-level sequence.
pub open spec fn lit(s: &str) -> Seq<u8> {
    s.spec_bytes()
}

/// The UTF-8 bytes of a string slice, as an owned vector.
pub fn str_bytes(s: &str) -> (r: Vec<u8>)
    ensures
        r@ == lit(s),
{
    let b = s.as_bytes();
    let r = sub_vec(b, 0, b.len());
    assert(b@.subrange(0, b@.len() as int) =~= b@);
    r
}

} // verus!

verus! {

/// Index of the first occurrence of byte `b` at or after `i`.
pub open spec fn spec_find_byte(s: Seq<u8>, b: u8, i: int) -> Option<int>
    decreases s.len() - i,
{
    if i < 0 || i >= s.len() {
        None
    } else if s[i] == b {
        Some(i)
    } else {
        spec_find_byte(s, b, i + 1)
    }
}

pub fn find_byte(s: &[u8], b: u8, i: usize) -> (r: Option<usize>)
    requires
        i <= s@.len(),
    ensures
        (match r {
            Some(u) => spec_find_byte(s@, b, i as int) == Some(u as int) && i <= u < s@.len(),
            None => spec_find_byte(s@, b, i as int) is None,
        }),
{
    let mut k: usize = i;
    while k < s.len()
        invariant
            i <= k <= s@.len(),
            spec_find_byte(s@, b, i as int) == spec_find_byte(s@, b, k as int),
        decreases s.len() - k,
    {
        if s[k] == b {
            return Some(k);
        }
        k += 1;
    }
    None
}

} // verus!
