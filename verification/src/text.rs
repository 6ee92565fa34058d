//! Byte-level text primitives: locating fixed byte sequences in a document
//! and splicing replacement text into non-overlapping matched ranges.
use vstd::prelude::*;

verus! {

/// The byte sequence `w` occurs in `s` at position `i`.
pub open spec fn lit_at(s: Seq<u8>, i: int, w: Seq<u8>) -> bool {
    &&& 0 <= i
    &&& i + w.len() <= s.len()
    &&& s.subrange(i, i + w.len()) == w
}

/// Position of the first occurrence of a nonempty `w` in `s` at or after
/// `from`.
pub open spec fn find_from(s: Seq<u8>, w: Seq<u8>, from: int) -> Option<int>
    decreases s.len() - from,
{
    if w.len() == 0 || from + w.len() > s.len() {
        None
    } else if lit_at(s, from, w) {
        Some(from)
    } else {
        find_from(s, w, from + 1)
    }
}

pub proof fn lemma_find_from_some(s: Seq<u8>, w: Seq<u8>, from: int, i: int)
    requires
        find_from(s, w, from) == Some(i),
    ensures
        from <= i,
        i + w.len() <= s.len(),
        lit_at(s, i, w),
        forall|j: int| from <= j < i ==> !lit_at(s, j, w),
    decreases s.len() - from,
{
    if from + w.len() > s.len() {
    } else if lit_at(s, from, w) {
    } else {
        lemma_find_from_some(s, w, from + 1, i);
    }
}

/// `w` occurs in `s` at position `at`, decided by comparing bytes.
pub fn starts_with_at(s: &Vec<u8>, w: &Vec<u8>, at: usize) -> (r: bool)
    ensures
        r == lit_at(s@, at as int, w@),
{
    if at > s.len() || w.len() > s.len() - at {
        proof {
            assert(!lit_at(s@, at as int, w@));
        }
        return false;
    }
    let mut j: usize = 0;
    while j < w.len()
        invariant
            at + w.len() <= s.len(),
            j <= w.len(),
            forall|k: int| 0 <= k < j ==> s@[at + k] == w@[k],
        decreases w.len() - j,
    {
        if s[at + j] != w[j] {
            proof {
                assert(s@.subrange(at as int, at + w@.len())[j as int] != w@[j as int]);
            }
            return false;
        }
        j += 1;
    }
    proof {
        assert(s@.subrange(at as int, at + w@.len()) =~= w@);
    }
    true
}

/// First occurrence of `w` in `s` at or after `from`.
pub fn find(s: &Vec<u8>, w: &Vec<u8>, from: usize) -> (r: Option<usize>)
    requires
        w@.len() >= 1,
    ensures
        match r {
            Some(i) => {
                &&& find_from(s@, w@, from as int) == Some(i as int)
                &&& from <= i
                &&& i + w@.len() <= s@.len()
                &&& lit_at(s@, i as int, w@)
            },
            None => find_from(s@, w@, from as int) is None,
        },
{
    let mut i: usize = from;
    loop
        invariant
            from <= i,
            w@.len() >= 1,
            find_from(s@, w@, from as int) == find_from(s@, w@, i as int),
        decreases s@.len() + 1 - i,
    {
        if i > s.len() || w.len() > s.len() - i {
            return None;
        }
        if starts_with_at(s, w, i) {
            proof {
                lemma_find_from_some(s@, w@, i as int, i as int);
            }
            return Some(i);
        }
        i += 1;
    }
}

/// An occurrence inside a contiguous slice of `s` is an occurrence in `s`.
pub proof fn lemma_occurrence_in_subrange(s: Seq<u8>, a: int, b: int, w: Seq<u8>, t: int)
    requires
        0 <= a <= b <= s.len(),
        lit_at(s.subrange(a, b), t, w),
    ensures
        lit_at(s, a + t, w),
{
    let sub = s.subrange(a, b);
    assert forall|m: int| 0 <= m < w.len() implies s[a + t + m] == w[m] by {
        assert(sub.subrange(t, t + w.len() as int)[m] == sub[t + m]);
        assert(sub[t + m] == s[a + t + m]);
    }
    assert(s.subrange(a + t, a + t + w.len() as int) =~= w);
}

/// An occurrence in a concatenation lies in the left part, lies in the
/// right part, or crosses the seam; crossing, its bytes end the left part
/// with a proper prefix of `w`.
pub proof fn lemma_occurrence_split(g: Seq<u8>, rest: Seq<u8>, w: Seq<u8>, t: int)
    requires
        w.len() >= 1,
        lit_at(g + rest, t, w),
    ensures
        t + w.len() <= g.len() ==> lit_at(g, t, w),
        t >= g.len() ==> lit_at(rest, t - g.len(), w),
        t < g.len() < t + w.len() ==> (g.len() >= 1 && g[g.len() - 1] == w[g.len() - 1 - t]),
{
    let out = g + rest;
    assert forall|m: int| 0 <= m < w.len() implies out[t + m] == w[m] by {
        assert(out.subrange(t, t + w.len() as int)[m] == out[t + m]);
    }
    if t + w.len() <= g.len() {
        assert forall|m: int| 0 <= m < w.len() implies g[t + m] == w[m] by {
            assert(out[t + m] == g[t + m]);
        }
        assert(g.subrange(t, t + w.len() as int) =~= w);
    } else if t >= g.len() {
        assert forall|m: int| 0 <= m < w.len() implies rest[t - g.len() + m] == w[m] by {
            assert(out[t + m] == rest[t + m - g.len()]);
        }
        assert(rest.subrange(t - g.len(), t - g.len() + w.len() as int) =~= w);
    } else {
        let j = g.len() - t;
        assert(out[t + (j - 1)] == w[j - 1]);
        assert(out[g.len() - 1] == g[g.len() - 1]);
    }
}

/// Whether `a` and `b` hold the same bytes.
pub fn eq_bytes(a: &Vec<u8>, b: &Vec<u8>) -> (r: bool)
    ensures
        r == (a@ == b@),
{
    if a.len() != b.len() {
        return false;
    }
    let mut i: usize = 0;
    while i < a.len()
        invariant
            a@.len() == b@.len(),
            i <= a@.len(),
            forall|k: int| 0 <= k < i ==> a@[k] == b@[k],
        decreases a@.len() - i,
    {
        if a[i] != b[i] {
            return false;
        }
        i += 1;
    }
    proof {
        assert(a@ =~= b@);
    }
    true
}

/// A replacement: the half-open range `start..end` of the source is replaced
/// by the bytes `ins`.
pub struct Rep {
    pub start: usize,
    pub end: usize,
    pub ins: Vec<u8>,
}

impl Rep {
    pub open spec fn view(self) -> (int, int, Seq<u8>) {
        (self.start as int, self.end as int, self.ins@)
    }
}

pub open spec fn rep_views(reps: Seq<Rep>) -> Seq<(int, int, Seq<u8>)> {
    reps.map_values(|r: Rep| r.view())
}

/// The ranges are ordered left to right, do not overlap, and lie at or after
/// `from` within `s`.
pub open spec fn reps_wf(s: Seq<u8>, reps: Seq<(int, int, Seq<u8>)>, from: int) -> bool
    decreases reps.len(),
{
    reps.len() == 0 || {
        &&& from <= reps[0].0 <= reps[0].1 <= s.len()
        &&& reps_wf(s, reps.drop_first(), reps[0].1)
    }
}

/// The text produced by copying `s` from `from` on, with each replaced range
/// substituted by its replacement bytes.
pub open spec fn splice_from(s: Seq<u8>, reps: Seq<(int, int, Seq<u8>)>, from: int) -> Seq<u8>
    decreases reps.len(),
{
    if reps.len() == 0 {
        s.subrange(from, s.len() as int)
    } else {
        s.subrange(from, reps[0].0) + reps[0].2 + splice_from(s, reps.drop_first(), reps[0].1)
    }
}

pub proof fn lemma_splice_empty(s: Seq<u8>, reps: Seq<(int, int, Seq<u8>)>)
    requires
        reps.len() == 0,
    ensures
        splice_from(s, reps, 0) == s,
{
    assert(s.subrange(0, s.len() as int) =~= s);
}

/// Append `src[lo..hi]` to `dst`.
pub fn extend_range(dst: &mut Vec<u8>, src: &Vec<u8>, lo: usize, hi: usize)
    requires
        lo <= hi <= src@.len(),
    ensures
        final(dst)@ == old(dst)@ + src@.subrange(lo as int, hi as int),
{
    let piece = vstd::slice::slice_subrange(src.as_slice(), lo, hi);
    dst.extend_from_slice(piece);
}

/// Perform the substitution described by `reps` on `s`.
pub fn splice(s: &Vec<u8>, reps: &Vec<Rep>) -> (out: Vec<u8>)
    requires
        reps_wf(s@, rep_views(reps@), 0),
    ensures
        out@ == splice_from(s@, rep_views(reps@), 0),
{
    let ghost all = rep_views(reps@);
    let mut out: Vec<u8> = Vec::new();
    let mut pos: usize = 0;
    let mut k: usize = 0;
    proof {
        assert(all.skip(0) =~= all);
        assert(out@ + splice_from(s@, all, 0) =~= splice_from(s@, all, 0));
    }
    while k < reps.len()
        invariant
            k <= reps@.len(),
            pos <= s@.len(),
            all == rep_views(reps@),
            reps_wf(s@, all.skip(k as int), pos as int),
            splice_from(s@, all, 0) == out@ + splice_from(s@, all.skip(k as int), pos as int),
        decreases reps@.len() - k,
    {
        proof {
            assert(all.skip(k as int)[0] == reps@[k as int].view());
            assert(all.skip(k as int).drop_first() =~= all.skip(k as int + 1));
        }
        let start = reps[k].start;
        let end = reps[k].end;
        extend_range(&mut out, s, pos, start);
        let mut j: usize = 0;
        let ghost ins = reps@[k as int].ins@;
        let ghost out_before = out@;
        while j < reps[k].ins.len()
            invariant
                k < reps@.len(),
                j <= ins.len(),
                ins == reps@[k as int].ins@,
                out@ == out_before + ins.subrange(0, j as int),
            decreases ins.len() - j,
        {
            let b = reps[k].ins[j];
            out.push(b);
            proof {
                assert(out@ =~= out_before + ins.subrange(0, j + 1 as int));
            }
            j += 1;
        }
        proof {
            assert(out@ == out_before + ins.subrange(0, ins.len() as int));
            assert(ins.subrange(0, ins.len() as int) =~= ins);
        }
        pos = end;
        k += 1;
    }
    proof {
        assert(all.skip(k as int).len() == 0);
        assert(splice_from(s@, all.skip(k as int), pos as int) == s@.subrange(
            pos as int,
            s@.len() as int,
        ));
    }
    extend_range(&mut out, s, pos, s.len());
    proof {
        assert(out@ == splice_from(s@, all, 0));
    }
    out
}

} // verus!
