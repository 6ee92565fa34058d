//! The SVG inlining pass: scan the body for image placeholders of the shape
//! `<img data-inline="BOOL" src="PATH" ... />`, resolve each source path,
//! and substitute the first vector-graphic element of the referenced file,
//! with its `id="..."` attributes removed when the placeholder asks for it.
//!
//! The placeholder's source is the text up to the next `"` after `src="`,
//! and the tag must close with `/>` after it; matches are found left to
//! right and do not overlap or recurse into replacement text.
use crate::lit::{
    false_tail, false_tail_vec, id_open, id_open_vec, img_open, img_open_vec, quote, quote_vec,
    static_root, static_root_vec, svg_close, svg_close_vec, svg_open, svg_open_vec, tag_close,
    tag_close_vec, true_tail, true_tail_vec,
};
use crate::text::{
    find, find_from, lemma_find_from_some, lit_at, rep_views, reps_wf, splice, splice_from,
    starts_with_at, Rep,
};
use crate::SSGError;
use vstd::prelude::*;

verus! {

/// A matched image placeholder: the span it covers, the strip-ids flag, and
/// the source path it names.
pub struct ImgTagS {
    pub start: int,
    pub end: int,
    pub strip_ids: bool,
    pub src: Seq<u8>,
}

/// The placeholder match starting at position `i`, if any.
pub open spec fn img_at(s: Seq<u8>, i: int) -> Option<ImgTagS> {
    if !lit_at(s, i, img_open()) {
        None
    } else {
        let j = i + img_open().len();
        if lit_at(s, j, true_tail()) || lit_at(s, j, false_tail()) {
            let strip = lit_at(s, j, true_tail());
            let k = if strip {
                j + true_tail().len()
            } else {
                j + false_tail().len()
            };
            match find_from(s, quote(), k + 1) {
                Some(q) => match find_from(s, tag_close(), q + 1) {
                    Some(e) => Some(
                        ImgTagS { start: i, end: e + 2, strip_ids: strip, src: s.subrange(k, q) },
                    ),
                    None => None,
                },
                None => None,
            }
        } else {
            None
        }
    }
}

pub proof fn lemma_img_at_bounds(s: Seq<u8>, i: int)
    requires
        img_at(s, i) is Some,
    ensures
        img_at(s, i)->Some_0.start == i,
        i + img_open().len() < img_at(s, i)->Some_0.end,
        img_at(s, i)->Some_0.end <= s.len(),
{
    let j = i + img_open().len();
    let strip = lit_at(s, j, true_tail());
    let k = if strip {
        j + true_tail().len()
    } else {
        j + false_tail().len()
    };
    let q = find_from(s, quote(), k + 1)->Some_0;
    lemma_find_from_some(s, quote(), k + 1, q);
    let e = find_from(s, tag_close(), q + 1)->Some_0;
    lemma_find_from_some(s, tag_close(), q + 1, e);
}

/// All placeholder matches at or after `from`, left to right, without
/// overlap: scanning resumes past each match.
pub open spec fn img_scan(s: Seq<u8>, from: int) -> Seq<ImgTagS>
    decreases s.len() - from,
    via img_scan_dec
{
    if from >= s.len() {
        Seq::empty()
    } else {
        match img_at(s, from) {
            Some(t) => seq![t] + img_scan(s, t.end),
            None => img_scan(s, from + 1),
        }
    }
}

#[via_fn]
proof fn img_scan_dec(s: Seq<u8>, from: int) {
    if from < s.len() && img_at(s, from) is Some {
        lemma_img_at_bounds(s, from);
    }
}

/// A matched image placeholder.
pub struct ImgTag {
    pub start: usize,
    pub end: usize,
    pub strip_ids: bool,
    pub src: Vec<u8>,
}

impl ImgTag {
    pub open spec fn view(self) -> ImgTagS {
        ImgTagS {
            start: self.start as int,
            end: self.end as int,
            strip_ids: self.strip_ids,
            src: self.src@,
        }
    }
}

pub open spec fn tag_views(ts: Seq<ImgTag>) -> Seq<ImgTagS> {
    ts.map_values(|t: ImgTag| t.view())
}

struct ImgNeedles {
    open: Vec<u8>,
    ttail: Vec<u8>,
    ftail: Vec<u8>,
    quote: Vec<u8>,
    close: Vec<u8>,
}

impl ImgNeedles {
    spec fn wf(self) -> bool {
        &&& self.open@ == img_open()
        &&& self.ttail@ == true_tail()
        &&& self.ftail@ == false_tail()
        &&& self.quote@ == quote()
        &&& self.close@ == tag_close()
    }

    fn new() -> (r: ImgNeedles)
        ensures
            r.wf(),
    {
        ImgNeedles {
            open: img_open_vec(),
            ttail: true_tail_vec(),
            ftail: false_tail_vec(),
            quote: quote_vec(),
            close: tag_close_vec(),
        }
    }
}

fn img_at_exec(s: &Vec<u8>, i: usize, nd: &ImgNeedles) -> (r: Option<ImgTag>)
    requires
        nd.wf(),
    ensures
        match r {
            Some(t) => {
                &&& img_at(s@, i as int) == Some(t.view())
                &&& i < t.end <= s@.len()
            },
            None => img_at(s@, i as int) is None,
        },
{
    let n = s.len();
    if !starts_with_at(s, &nd.open, i) {
        return None;
    }
    proof {
        assert(i + img_open().len() <= n);
    }
    let j = i + nd.open.len();
    let (strip, k) = if starts_with_at(s, &nd.ttail, j) {
        (true, j + nd.ttail.len())
    } else if starts_with_at(s, &nd.ftail, j) {
        (false, j + nd.ftail.len())
    } else {
        return None;
    };
    proof {
        assert(k <= n);
    }
    if k >= n {
        proof {
            assert(find_from(s@, quote(), k as int + 1) is None);
        }
        return None;
    }
    match find(s, &nd.quote, k + 1) {
        Some(q) => {
            match find(s, &nd.close, q + 1) {
                Some(e) => {
                    let src = vstd::slice::slice_to_vec(
                        vstd::slice::slice_subrange(s.as_slice(), k, q),
                    );
                    let t = ImgTag { start: i, end: e + 2, strip_ids: strip, src };
                    proof {
                        lemma_img_at_bounds(s@, i as int);
                    }
                    Some(t)
                },
                None => None,
            }
        },
        None => None,
    }
}

/// Scan the body for every image placeholder, left to right.
pub fn scan_images(s: &Vec<u8>) -> (r: Vec<ImgTag>)
    ensures
        tag_views(r@) == img_scan(s@, 0),
        forall|i: int|
            0 <= i < r@.len() ==> (#[trigger] r@[i]).start <= r@[i].end <= s@.len(),
{
    let nd = ImgNeedles::new();
    let mut out: Vec<ImgTag> = Vec::new();
    let mut pos: usize = 0;
    proof {
        assert(tag_views(out@) + img_scan(s@, 0) =~= img_scan(s@, 0));
    }
    while pos < s.len()
        invariant
            nd.wf(),
            img_scan(s@, 0) == tag_views(out@) + img_scan(s@, pos as int),
            forall|i: int|
                0 <= i < out@.len() ==> (#[trigger] out@[i]).start <= out@[i].end <= s@.len(),
        decreases s@.len() - pos,
    {
        let ghost out0 = out@;
        match img_at_exec(s, pos, &nd) {
            Some(t) => {
                let ghost tv = t.view();
                let next = t.end;
                proof {
                    assert(t.start <= t.end) by {
                        lemma_img_at_bounds(s@, pos as int);
                    }
                }
                out.push(t);
                proof {
                    assert(tag_views(out@) =~= tag_views(out0) + seq![tv]);
                    assert(tag_views(out0) + (seq![tv] + img_scan(s@, next as int)) =~= (
                    tag_views(out0) + seq![tv]) + img_scan(s@, next as int));
                }
                pos = next;
            },
            None => {
                pos = pos + 1;
            },
        }
    }
    out
}

/// The well-formedness that scanning guarantees: matches are ordered left to
/// right, do not overlap, and lie within the text.
pub open spec fn tags_wf(s: Seq<u8>, tags: Seq<ImgTagS>, from: int) -> bool
    decreases tags.len(),
{
    tags.len() == 0 || {
        &&& from <= tags[0].start <= tags[0].end <= s.len()
        &&& tags_wf(s, tags.drop_first(), tags[0].end)
    }
}

pub proof fn lemma_img_scan_wf(s: Seq<u8>, from: int)
    ensures
        tags_wf(s, img_scan(s, from), from),
    decreases s.len() - from,
{
    if from >= s.len() {
    } else {
        match img_at(s, from) {
            Some(t) => {
                lemma_img_at_bounds(s, from);
                lemma_img_scan_wf(s, t.end);
                assert((seq![t] + img_scan(s, t.end)).drop_first() =~= img_scan(s, t.end));
            },
            None => {
                lemma_img_scan_wf(s, from + 1);
                lemma_tags_wf_weaken(s, img_scan(s, from + 1), from + 1, from);
            },
        }
    }
}

proof fn lemma_tags_wf_weaken(s: Seq<u8>, tags: Seq<ImgTagS>, from: int, earlier: int)
    requires
        tags_wf(s, tags, from),
        earlier <= from,
    ensures
        tags_wf(s, tags, earlier),
    decreases tags.len(),
{
    if tags.len() == 0 {
    } else {
    }
}

/// No newline lies in `s[a..b)`.
pub open spec fn no_newline(s: Seq<u8>, a: int, b: int) -> bool {
    forall|k: int| a <= k < b ==> s[k] != 10
}

/// The `id="..."` attribute match starting at position `i`: the end of the
/// match, which closes at the next `"` with no newline in between.
pub open spec fn id_at(s: Seq<u8>, i: int) -> Option<int> {
    if !lit_at(s, i, id_open()) {
        None
    } else {
        match find_from(s, quote(), i + id_open().len()) {
            Some(q) => if no_newline(s, i + id_open().len(), q) {
                Some(q + 1)
            } else {
                None
            },
            None => None,
        }
    }
}

pub proof fn lemma_id_at_bounds(s: Seq<u8>, i: int)
    requires
        id_at(s, i) is Some,
    ensures
        i + id_open().len() <= id_at(s, i)->Some_0,
        id_at(s, i)->Some_0 <= s.len(),
{
    let q = find_from(s, quote(), i + id_open().len())->Some_0;
    lemma_find_from_some(s, quote(), i + id_open().len(), q);
}

/// The replacement list that deletes every `id="..."` attribute at or after
/// `from`, matched left to right without overlap.
pub open spec fn id_reps(s: Seq<u8>, from: int) -> Seq<(int, int, Seq<u8>)>
    decreases s.len() - from,
    via id_reps_dec
{
    if from >= s.len() {
        Seq::empty()
    } else {
        match id_at(s, from) {
            Some(e) => seq![(from, e, Seq::<u8>::empty())] + id_reps(s, e),
            None => id_reps(s, from + 1),
        }
    }
}

#[via_fn]
proof fn id_reps_dec(s: Seq<u8>, from: int) {
    if from < s.len() && id_at(s, from) is Some {
        lemma_id_at_bounds(s, from);
    }
}

/// `s` with every `id="..."` attribute removed.
pub open spec fn strip_ids_spec(s: Seq<u8>) -> Seq<u8> {
    splice_from(s, id_reps(s, 0), 0)
}

pub proof fn lemma_id_reps_wf(s: Seq<u8>, from: int)
    ensures
        reps_wf(s, id_reps(s, from), from),
    decreases s.len() - from,
{
    if from >= s.len() {
    } else {
        match id_at(s, from) {
            Some(e) => {
                lemma_id_at_bounds(s, from);
                lemma_id_reps_wf(s, e);
                assert((seq![(from, e, Seq::<u8>::empty())] + id_reps(s, e)).drop_first() =~= id_reps(
                    s,
                    e,
                ));
            },
            None => {
                lemma_id_reps_wf(s, from + 1);
                lemma_reps_wf_weaken(s, id_reps(s, from + 1), from + 1, from);
            },
        }
    }
}

proof fn lemma_reps_wf_weaken(s: Seq<u8>, reps: Seq<(int, int, Seq<u8>)>, from: int, earlier: int)
    requires
        reps_wf(s, reps, from),
        earlier <= from,
    ensures
        reps_wf(s, reps, earlier),
    decreases reps.len(),
{
}

fn id_at_exec(s: &Vec<u8>, i: usize, idw: &Vec<u8>, qw: &Vec<u8>) -> (r: Option<usize>)
    requires
        idw@ == id_open(),
        qw@ == quote(),
    ensures
        match r {
            Some(e) => id_at(s@, i as int) == Some(e as int) && i < e <= s@.len(),
            None => id_at(s@, i as int) is None,
        },
{
    let n = s.len();
    if !starts_with_at(s, idw, i) {
        return None;
    }
    proof {
        assert(i + id_open().len() <= n);
    }
    match find(s, qw, i + idw.len()) {
        Some(q) => {
            // check no newline between the opening and the closing quote
            let mut k = i + idw.len();
            while k < q
                invariant
                    lit_at(s@, i as int, id_open()),
                    find_from(s@, quote(), i + id_open().len()) == Some(q as int),
                    i + id_open().len() <= k <= q,
                    q + 1 <= s@.len(),
                    no_newline(s@, i + id_open().len(), k as int),
                decreases q - k,
            {
                if s[k] == 10 {
                    proof {
                        assert(!no_newline(s@, i + id_open().len(), q as int));
                    }
                    return None;
                }
                k += 1;
            }
            Some(q + 1)
        },
        None => None,
    }
}

/// Remove every `id="..."` attribute from `s`; the identifiers might not be
/// unique once several fragments are inlined into one page.
pub fn strip_ids(s: &Vec<u8>) -> (r: Vec<u8>)
    ensures
        r@ == strip_ids_spec(s@),
{
    let idw = id_open_vec();
    let qw = quote_vec();
    let mut reps: Vec<Rep> = Vec::new();
    let mut pos: usize = 0;
    proof {
        assert(rep_views(reps@) + id_reps(s@, 0) =~= id_reps(s@, 0));
    }
    while pos < s.len()
        invariant
            idw@ == id_open(),
            qw@ == quote(),
            id_reps(s@, 0) == rep_views(reps@) + id_reps(s@, pos as int),
        decreases s@.len() - pos,
    {
        let ghost reps0 = reps@;
        match id_at_exec(s, pos, &idw, &qw) {
            Some(e) => {
                let r = Rep { start: pos, end: e, ins: Vec::new() };
                proof {
                    assert(r.view() == (pos as int, e as int, Seq::<u8>::empty()));
                }
                reps.push(r);
                proof {
                    assert(rep_views(reps@) =~= rep_views(reps0) + seq![
                        (pos as int, e as int, Seq::<u8>::empty()),
                    ]);
                    assert(rep_views(reps0) + (seq![(pos as int, e as int, Seq::<u8>::empty())]
                        + id_reps(s@, e as int)) =~= (rep_views(reps0) + seq![
                        (pos as int, e as int, Seq::<u8>::empty()),
                    ]) + id_reps(s@, e as int));
                }
                pos = e;
            },
            None => {
                pos = pos + 1;
            },
        }
    }
    proof {
        assert(id_reps(s@, 0) =~= rep_views(reps@));
        lemma_id_reps_wf(s@, 0);
    }
    splice(s, &reps)
}

/// Position of the first `id="..."` attribute match at or after `from`.
pub open spec fn first_id(s: Seq<u8>, from: int) -> Option<int>
    decreases s.len() - from,
{
    if from >= s.len() {
        None
    } else if id_at(s, from) is Some {
        Some(from)
    } else {
        first_id(s, from + 1)
    }
}

/// How the strip result decomposes around the first match: the text up to
/// the match, then the stripped remainder from the match's end.
proof fn lemma_strip_decomp(s: Seq<u8>, from: int)
    requires
        0 <= from,
    ensures
        match first_id(s, from) {
            None => {
                &&& id_reps(s, from).len() == 0
                &&& splice_from(s, id_reps(s, from), from) == s.subrange(from, s.len() as int)
                &&& forall|j: int| from <= j ==> #[trigger] id_at(s, j) is None
            },
            Some(p) => {
                &&& from <= p < s.len()
                &&& id_at(s, p) is Some
                &&& splice_from(s, id_reps(s, from), from) == s.subrange(from, p) + splice_from(
                    s,
                    id_reps(s, id_at(s, p)->Some_0),
                    id_at(s, p)->Some_0,
                )
                &&& forall|j: int| from <= j < p ==> #[trigger] id_at(s, j) is None
            },
        },
    decreases s.len() - from,
{
    if from >= s.len() {
        assert(forall|j: int| from <= j ==> #[trigger] id_at(s, j) is None) by {
            assert forall|j: int| from <= j implies #[trigger] id_at(s, j) is None by {
                if id_at(s, j) is Some {
                    lemma_id_at_bounds(s, j);
                }
            }
        }
    } else if id_at(s, from) is Some {
        let e = id_at(s, from)->Some_0;
        lemma_id_at_bounds(s, from);
        assert((seq![(from, e, Seq::<u8>::empty())] + id_reps(s, e)).drop_first() =~= id_reps(
            s,
            e,
        ));
        assert(s.subrange(from, from) + Seq::<u8>::empty() + splice_from(s, id_reps(s, e), e) =~= s
            .subrange(from, from) + splice_from(s, id_reps(s, e), e));
        assert(s.subrange(from, from) + splice_from(s, id_reps(s, e), e) =~= splice_from(
            s,
            id_reps(s, e),
            e,
        ));
        assert(s.subrange(from, from) + Seq::<u8>::empty() + splice_from(s, id_reps(s, e), e)
            =~= splice_from(s, id_reps(s, e), e));
    } else {
        lemma_strip_decomp(s, from + 1);
        lemma_first_id_reps(s, from + 1);
        match first_id(s, from + 1) {
            None => {
                assert(splice_from(s, id_reps(s, from), from) == s.subrange(
                    from,
                    s.len() as int,
                ));
            },
            Some(p) => {
                let e = id_at(s, p)->Some_0;
                // the replacement list is unchanged; only the copy base moves
                let reps = id_reps(s, from + 1);
                assert(id_reps(s, from) == reps);
                assert(reps[0] == (p, e, Seq::<u8>::empty()));
                assert(reps.drop_first() =~= id_reps(s, e));
                assert(splice_from(s, reps, from) == s.subrange(from, p) + Seq::<u8>::empty()
                    + splice_from(s, id_reps(s, e), e));
                assert(s.subrange(from, p) + Seq::<u8>::empty() + splice_from(s, id_reps(s, e), e)
                    =~= s.subrange(from, p) + splice_from(s, id_reps(s, e), e));
            },
        }
    }
}

/// The replacement list starts exactly at the first match.
proof fn lemma_first_id_reps(s: Seq<u8>, from: int)
    requires
        0 <= from,
    ensures
        match first_id(s, from) {
            None => id_reps(s, from).len() == 0,
            Some(p) => id_reps(s, from) == seq![
                (p, id_at(s, p)->Some_0, Seq::<u8>::empty()),
            ] + id_reps(s, id_at(s, p)->Some_0),
        },
    decreases s.len() - from,
{
    if from >= s.len() {
    } else if id_at(s, from) is Some {
    } else {
        lemma_first_id_reps(s, from + 1);
    }
}

/// Every occurrence of the attribute opener begins a full attribute match,
/// and none is preceded by a byte of the opener itself: removal then cannot
/// juxtapose text into a new occurrence.
pub open spec fn ids_separated(s: Seq<u8>) -> bool {
    &&& forall|q: int| #[trigger] lit_at(s, q, id_open()) ==> id_at(s, q) is Some
    &&& forall|q: int|
        #[trigger] lit_at(s, q, id_open()) && q > 0 ==> s[q - 1] != id_open()[0] && s[q - 1]
            != id_open()[1] && s[q - 1] != id_open()[2]
}

proof fn lemma_strip_no_ids_from(s: Seq<u8>, from: int)
    requires
        0 <= from <= s.len(),
        ids_separated(s),
    ensures
        forall|t: int| !lit_at(splice_from(s, id_reps(s, from), from), t, id_open()),
    decreases s.len() - from,
{
    lemma_strip_decomp(s, from);
    let out = splice_from(s, id_reps(s, from), from);
    match first_id(s, from) {
        None => {
            assert forall|t: int| !lit_at(out, t, id_open()) by {
                if lit_at(out, t, id_open()) {
                    assert(lit_at(s.subrange(from, s.len() as int), t, id_open()));
                    crate::text::lemma_occurrence_in_subrange(
                        s,
                        from,
                        s.len() as int,
                        id_open(),
                        t,
                    );
                    assert(id_at(s, from + t) is Some);
                    assert(false);
                }
            }
        },
        Some(p) => {
            let e = id_at(s, p)->Some_0;
            lemma_id_at_bounds(s, p);
            lemma_strip_no_ids_from(s, e);
            let g = s.subrange(from, p);
            let rest = splice_from(s, id_reps(s, e), e);
            assert(out == g + rest);
            // the match at `p` starts with the opener, and is preceded by
            // none of the opener's first three bytes
            assert(lit_at(s, p, id_open()));
            assert forall|t: int| !lit_at(out, t, id_open()) by {
                if lit_at(out, t, id_open()) {
                    let l = id_open().len() as int;
                    assert(lit_at(g + rest, t, id_open()));
                    crate::text::lemma_occurrence_split(g, rest, id_open(), t);
                    if t + l <= g.len() {
                        crate::text::lemma_occurrence_in_subrange(s, from, p, id_open(), t);
                        assert(id_at(s, from + t) is Some);
                        assert(from + t < p);
                        assert(false);
                    } else if t >= g.len() {
                        assert(lit_at(rest, t - g.len(), id_open()));
                        assert(false);
                    } else {
                        // the occurrence crosses the seam: the byte just
                        // before the removed match is one of the opener's
                        // first three
                        assert(g[g.len() - 1] == s[p - 1]);
                        assert(s[p - 1] == id_open()[g.len() - 1 - t]);
                        assert(0 <= g.len() - 1 - t < 3);
                        assert(p > 0);
                        assert(false);
                    }
                }
            }
        },
    }
}

/// With every `id="` occurrence opening a full attribute and none abutting
/// a prefix of another opener, stripping removes every occurrence: none is
/// left in the result.
pub proof fn lemma_strip_ids_removes_all(s: Seq<u8>)
    requires
        ids_separated(s),
    ensures
        forall|t: int| !lit_at(strip_ids_spec(s), t, id_open()),
{
    lemma_strip_no_ids_from(s, 0);
}

/// With the strip-ids flag set, and the asset's `id="` occurrences
/// separated as above, the substituted fragment holds no `id="..."`
/// attribute: not even the four-byte opener occurs in it.
pub proof fn lemma_fragment_no_ids(asset: Seq<u8>)
    requires
        ids_separated(asset),
        svg_replacement(asset, true) is Some,
    ensures
        forall|t: int| !lit_at(svg_replacement(asset, true)->Some_0, t, id_open()),
{
    lemma_strip_ids_removes_all(asset);
    let cleaned = strip_ids_spec(asset);
    let a = find_from(cleaned, svg_open(), 0)->Some_0;
    lemma_find_from_some(cleaned, svg_open(), 0, a);
    let e = find_from(cleaned, svg_close(), a + svg_open().len())->Some_0;
    lemma_find_from_some(cleaned, svg_close(), a + svg_open().len(), e);
    let frag = svg_replacement(asset, true)->Some_0;
    assert(frag == cleaned.subrange(a, e + svg_close().len()));
    assert forall|t: int| !lit_at(frag, t, id_open()) by {
        if lit_at(frag, t, id_open()) {
            crate::text::lemma_occurrence_in_subrange(
                cleaned,
                a,
                e + svg_close().len() as int,
                id_open(),
                t,
            );
        }
    }
}

/// The first vector-graphic element of `t`: from the first `<svg` to the
/// first `</svg>` after it, inclusive.
pub open spec fn svg_element(t: Seq<u8>) -> Option<Seq<u8>> {
    match find_from(t, svg_open(), 0) {
        Some(a) => match find_from(t, svg_close(), a + svg_open().len()) {
            Some(e) => Some(t.subrange(a, e + svg_close().len())),
            None => None,
        },
        None => None,
    }
}

/// What replaces a placeholder referencing an asset with content `asset`:
/// the asset's first vector-graphic element, taken after id-stripping when
/// `strip` is set.
pub open spec fn svg_replacement(asset: Seq<u8>, strip: bool) -> Option<Seq<u8>> {
    svg_element(
        if strip {
            strip_ids_spec(asset)
        } else {
            asset
        },
    )
}

/// Extract the (optionally id-stripped) vector-graphic element of an asset.
///
/// Fails with `AssetError` exactly when the asset holds no such element.
pub fn extract_svg(asset: &Vec<u8>, strip: bool) -> (r: Result<Vec<u8>, SSGError>)
    ensures
        match r {
            Ok(v) => svg_replacement(asset@, strip) == Some(v@),
            Err(e) => e == SSGError::AssetError && svg_replacement(asset@, strip) is None,
        },
{
    let cleaned: Vec<u8> = if strip {
        strip_ids(asset)
    } else {
        vstd::slice::slice_to_vec(asset.as_slice())
    };
    let ow = svg_open_vec();
    let cw = svg_close_vec();
    let n = cleaned.len();
    match find(&cleaned, &ow, 0) {
        Some(a) => {
            proof {
                assert(a + svg_open().len() <= n);
            }
            match find(&cleaned, &cw, a + ow.len()) {
                Some(e) => {
                    proof {
                        assert(e + svg_close().len() <= n);
                    }
                    let frag = vstd::slice::slice_to_vec(
                        vstd::slice::slice_subrange(cleaned.as_slice(), a, e + cw.len()),
                    );
                    Ok(frag)
                },
                None => Err(SSGError::AssetError),
            }
        },
        None => Err(SSGError::AssetError),
    }
}

/// Resolve a placeholder's source path: a site-rooted path (leading `/`)
/// resolves under the static-assets root, any other relative to the
/// document's own directory.
pub open spec fn resolved_path(src: Seq<u8>, page_dir: Seq<u8>) -> Seq<u8> {
    if src.len() > 0 && src[0] == 47 {
        static_root() + src
    } else {
        page_dir + seq![47u8] + src
    }
}

pub fn resolve_asset_path(src: &Vec<u8>, page_dir: &Vec<u8>) -> (r: Vec<u8>)
    ensures
        r@ == resolved_path(src@, page_dir@),
{
    let mut out: Vec<u8>;
    if src.len() > 0 && src[0] == 47 {
        out = static_root_vec();
    } else {
        out = vstd::slice::slice_to_vec(page_dir.as_slice());
        out.push(47);
    }
    crate::text::extend_range(&mut out, src, 0, src.len());
    proof {
        assert(src@.subrange(0, src@.len() as int) =~= src@);
        assert(out@ =~= resolved_path(src@, page_dir@));
    }
    out
}

/// What replaces the `i`-th placeholder when the `i`-th asset read yielded
/// `a` (`None`: the file could not be read).
pub open spec fn asset_replacement(a: Option<Vec<u8>>, strip: bool) -> Option<Seq<u8>> {
    match a {
        Some(v) => svg_replacement(v@, strip),
        None => None,
    }
}

/// Every placeholder's asset was read and holds a vector-graphic element.
pub open spec fn inline_ok(body: Seq<u8>, assets: Seq<Option<Vec<u8>>>) -> bool {
    forall|i: int|
        0 <= i < img_scan(body, 0).len() ==> asset_replacement(
            assets[i],
            (#[trigger] img_scan(body, 0)[i]).strip_ids,
        ) is Some
}

/// The replacement list of the inlining pass.
pub open spec fn inline_reps(body: Seq<u8>, assets: Seq<Option<Vec<u8>>>) -> Seq<
    (int, int, Seq<u8>),
> {
    Seq::new(
        img_scan(body, 0).len(),
        |i: int|
            (
                img_scan(body, 0)[i].start,
                img_scan(body, 0)[i].end,
                asset_replacement(assets[i], img_scan(body, 0)[i].strip_ids)->Some_0,
            ),
    )
}

/// The body after the inlining pass.
pub open spec fn inline_result(body: Seq<u8>, assets: Seq<Option<Vec<u8>>>) -> Seq<u8> {
    splice_from(body, inline_reps(body, assets), 0)
}

proof fn lemma_inline_reps_wf(
    body: Seq<u8>,
    assets: Seq<Option<Vec<u8>>>,
    tags: Seq<ImgTagS>,
    reps: Seq<(int, int, Seq<u8>)>,
    from: int,
)
    requires
        tags_wf(body, tags, from),
        reps.len() == tags.len(),
        forall|i: int|
            0 <= i < reps.len() ==> (#[trigger] reps[i]).0 == tags[i].start && reps[i].1
                == tags[i].end,
    ensures
        reps_wf(body, reps, from),
    decreases tags.len(),
{
    if tags.len() == 0 {
    } else {
        lemma_inline_reps_wf(body, assets, tags.drop_first(), reps.drop_first(), tags[0].end);
    }
}

/// Substitute each placeholder of `body` by the vector-graphic element of
/// its asset; `assets[i]` is the content of the file the `i`-th placeholder
/// references, in scan order, or `None` where it could not be read.
///
/// Fails with `AssetError` exactly when some asset is missing or holds no
/// vector-graphic element.
pub fn inline_images(body: &Vec<u8>, assets: &Vec<Option<Vec<u8>>>) -> (r: Result<
    Vec<u8>,
    SSGError,
>)
    requires
        assets@.len() == img_scan(body@, 0).len(),
    ensures
        match r {
            Ok(v) => inline_ok(body@, assets@) && v@ == inline_result(body@, assets@),
            Err(e) => e == SSGError::AssetError && !inline_ok(body@, assets@),
        },
{
    let tags = scan_images(body);
    proof {
        assert(tag_views(tags@).len() == img_scan(body@, 0).len());
    }
    let mut reps: Vec<Rep> = Vec::new();
    let mut i: usize = 0;
    while i < tags.len()
        invariant
            tag_views(tags@) == img_scan(body@, 0),
            assets@.len() == img_scan(body@, 0).len(),
            i <= tags@.len(),
            reps@.len() == i,
            forall|k: int|
                0 <= k < i ==> asset_replacement(
                    assets@[k],
                    (#[trigger] img_scan(body@, 0)[k]).strip_ids,
                ) is Some,
            forall|k: int|
                0 <= k < i ==> (#[trigger] rep_views(reps@)[k]) == inline_reps(body@, assets@)[k],
        decreases tags@.len() - i,
    {
        let ghost reps0 = reps@;
        proof {
            assert(tag_views(tags@)[i as int] == tags@[i as int].view());
        }
        let strip = tags[i].strip_ids;
        let frag = match &assets[i] {
            Some(a) => match extract_svg(a, strip) {
                Ok(f) => f,
                Err(e) => {
                    proof {
                        assert(asset_replacement(
                            assets@[i as int],
                            img_scan(body@, 0)[i as int].strip_ids,
                        ) is None);
                    }
                    return Err(SSGError::AssetError);
                },
            },
            None => {
                return Err(SSGError::AssetError);
            },
        };
        let start = tags[i].start;
        let end = tags[i].end;
        reps.push(Rep { start, end, ins: frag });
        proof {
            assert(rep_views(reps@) =~= rep_views(reps0) + seq![reps@[i as int].view()]);
        }
        i += 1;
    }
    proof {
        assert(rep_views(reps@) =~= inline_reps(body@, assets@));
        lemma_img_scan_wf(body@, 0);
        lemma_inline_reps_wf(
            body@,
            assets@,
            img_scan(body@, 0),
            inline_reps(body@, assets@),
            0,
        );
    }
    let out = splice(body, &reps);
    Ok(out)
}

/// Inlining leaves a body with no image placeholder unchanged.
pub proof fn lemma_inline_no_placeholders(body: Seq<u8>, assets: Seq<Option<Vec<u8>>>)
    requires
        img_scan(body, 0).len() == 0,
    ensures
        inline_ok(body, assets),
        inline_result(body, assets) == body,
{
    assert(inline_reps(body, assets) =~= Seq::<(int, int, Seq<u8>)>::empty());
    crate::text::lemma_splice_empty(body, inline_reps(body, assets));
}

} // verus!

