//! The math-notation pass: scan the body for inline math `$...$` and block
//! math `$$...$$` (the content never holds a `$`), render each span to
//! markup, and substitute the rendered markup for the span.
use crate::lit::{dollar, dollar_vec, double_dollar, double_dollar_vec};
use crate::text::{
    find, find_from, lemma_find_from_some, lit_at, rep_views, reps_wf, splice, splice_from,
    starts_with_at, Rep,
};
use crate::SSGError;
use vstd::prelude::*;

verus! {

/// A matched math span: where it lies, the markup between the delimiters,
/// and whether it uses the block (doubled) delimiter form.
pub struct MathSpanS {
    pub start: int,
    pub end: int,
    pub body: Seq<u8>,
    pub display: bool,
}

/// The math span starting at position `i`, if any. A doubled delimiter
/// opens a block span; a single one an inline span; the content is the text
/// up to the next `$`, and is never empty.
pub open spec fn math_at(s: Seq<u8>, i: int) -> Option<MathSpanS> {
    if !lit_at(s, i, dollar()) {
        None
    } else if lit_at(s, i, double_dollar()) {
        match find_from(s, dollar(), i + 2) {
            Some(q) => if q > i + 2 && lit_at(s, q, double_dollar()) {
                Some(MathSpanS { start: i, end: q + 2, body: s.subrange(i + 2, q), display: true })
            } else {
                None
            },
            None => None,
        }
    } else {
        match find_from(s, dollar(), i + 1) {
            Some(q) => if q > i + 1 {
                Some(MathSpanS { start: i, end: q + 1, body: s.subrange(i + 1, q), display: false })
            } else {
                None
            },
            None => None,
        }
    }
}

pub proof fn lemma_math_at_bounds(s: Seq<u8>, i: int)
    requires
        math_at(s, i) is Some,
    ensures
        math_at(s, i)->Some_0.start == i,
        i < math_at(s, i)->Some_0.end,
        math_at(s, i)->Some_0.end <= s.len(),
{
    if lit_at(s, i, double_dollar()) {
        let q = find_from(s, dollar(), i + 2)->Some_0;
        lemma_find_from_some(s, dollar(), i + 2, q);
    } else {
        let q = find_from(s, dollar(), i + 1)->Some_0;
        lemma_find_from_some(s, dollar(), i + 1, q);
    }
}

/// All math spans at or after `from`, left to right, without overlap.
pub open spec fn math_scan(s: Seq<u8>, from: int) -> Seq<MathSpanS>
    decreases s.len() - from,
    via math_scan_dec
{
    if from >= s.len() {
        Seq::empty()
    } else {
        match math_at(s, from) {
            Some(m) => seq![m] + math_scan(s, m.end),
            None => math_scan(s, from + 1),
        }
    }
}

#[via_fn]
proof fn math_scan_dec(s: Seq<u8>, from: int) {
    if from < s.len() && math_at(s, from) is Some {
        lemma_math_at_bounds(s, from);
    }
}

/// A matched math span.
pub struct MathSpan {
    pub start: usize,
    pub end: usize,
    pub body: Vec<u8>,
    pub display: bool,
}

impl MathSpan {
    pub open spec fn view(self) -> MathSpanS {
        MathSpanS {
            start: self.start as int,
            end: self.end as int,
            body: self.body@,
            display: self.display,
        }
    }
}

pub open spec fn span_views(ms: Seq<MathSpan>) -> Seq<MathSpanS> {
    ms.map_values(|m: MathSpan| m.view())
}

fn math_at_exec(s: &Vec<u8>, i: usize, dw: &Vec<u8>, ddw: &Vec<u8>) -> (r: Option<MathSpan>)
    requires
        dw@ == dollar(),
        ddw@ == double_dollar(),
    ensures
        match r {
            Some(m) => math_at(s@, i as int) == Some(m.view()) && i < m.end <= s@.len(),
            None => math_at(s@, i as int) is None,
        },
{
    let n = s.len();
    if !starts_with_at(s, dw, i) {
        return None;
    }
    proof {
        assert(i + 1 <= n);
    }
    if starts_with_at(s, ddw, i) {
        match find(s, dw, i + 2) {
            Some(q) => {
                if q > i + 2 && starts_with_at(s, ddw, q) {
                    let body = vstd::slice::slice_to_vec(
                        vstd::slice::slice_subrange(s.as_slice(), i + 2, q),
                    );
                    Some(MathSpan { start: i, end: q + 2, body, display: true })
                } else {
                    None
                }
            },
            None => None,
        }
    } else {
        match find(s, dw, i + 1) {
            Some(q) => {
                if q > i + 1 {
                    let body = vstd::slice::slice_to_vec(
                        vstd::slice::slice_subrange(s.as_slice(), i + 1, q),
                    );
                    Some(MathSpan { start: i, end: q + 1, body, display: false })
                } else {
                    None
                }
            },
            None => None,
        }
    }
}

/// Scan the body for every math span, left to right.
pub fn scan_math(s: &Vec<u8>) -> (r: Vec<MathSpan>)
    ensures
        span_views(r@) == math_scan(s@, 0),
{
    let dw = dollar_vec();
    let ddw = double_dollar_vec();
    let mut out: Vec<MathSpan> = Vec::new();
    let mut pos: usize = 0;
    proof {
        assert(span_views(out@) + math_scan(s@, 0) =~= math_scan(s@, 0));
    }
    while pos < s.len()
        invariant
            dw@ == dollar(),
            ddw@ == double_dollar(),
            math_scan(s@, 0) == span_views(out@) + math_scan(s@, pos as int),
        decreases s@.len() - pos,
    {
        let ghost out0 = out@;
        match math_at_exec(s, pos, &dw, &ddw) {
            Some(m) => {
                let ghost mv = m.view();
                let next = m.end;
                out.push(m);
                proof {
                    assert(span_views(out@) =~= span_views(out0) + seq![mv]);
                    assert(span_views(out0) + (seq![mv] + math_scan(s@, next as int)) =~= (
                    span_views(out0) + seq![mv]) + math_scan(s@, next as int));
                }
                pos = next;
            },
            None => {
                pos = pos + 1;
            },
        }
    }
    out
}

/// Well-formedness of the scanned spans: ordered, non-overlapping, in
/// bounds.
pub open spec fn spans_wf(s: Seq<u8>, ms: Seq<MathSpanS>, from: int) -> bool
    decreases ms.len(),
{
    ms.len() == 0 || {
        &&& from <= ms[0].start <= ms[0].end <= s.len()
        &&& spans_wf(s, ms.drop_first(), ms[0].end)
    }
}

pub proof fn lemma_math_scan_wf(s: Seq<u8>, from: int)
    ensures
        spans_wf(s, math_scan(s, from), from),
    decreases s.len() - from,
{
    if from >= s.len() {
    } else {
        match math_at(s, from) {
            Some(m) => {
                lemma_math_at_bounds(s, from);
                lemma_math_scan_wf(s, m.end);
                assert((seq![m] + math_scan(s, m.end)).drop_first() =~= math_scan(s, m.end));
            },
            None => {
                lemma_math_scan_wf(s, from + 1);
                lemma_spans_wf_weaken(s, math_scan(s, from + 1), from + 1, from);
            },
        }
    }
}

proof fn lemma_spans_wf_weaken(s: Seq<u8>, ms: Seq<MathSpanS>, from: int, earlier: int)
    requires
        spans_wf(s, ms, from),
        earlier <= from,
    ensures
        spans_wf(s, ms, earlier),
    decreases ms.len(),
{
}

/// The replacement list that substitutes `rendered[i]` for the `i`-th math
/// span.
pub open spec fn math_reps(body: Seq<u8>, rendered: Seq<Seq<u8>>) -> Seq<(int, int, Seq<u8>)> {
    Seq::new(
        math_scan(body, 0).len(),
        |i: int| (math_scan(body, 0)[i].start, math_scan(body, 0)[i].end, rendered[i]),
    )
}

/// The body with each math span replaced by its rendered markup.
pub open spec fn math_result(body: Seq<u8>, rendered: Seq<Seq<u8>>) -> Seq<u8> {
    splice_from(body, math_reps(body, rendered), 0)
}

proof fn lemma_math_reps_wf(
    body: Seq<u8>,
    ms: Seq<MathSpanS>,
    reps: Seq<(int, int, Seq<u8>)>,
    from: int,
)
    requires
        spans_wf(body, ms, from),
        reps.len() == ms.len(),
        forall|i: int|
            0 <= i < reps.len() ==> (#[trigger] reps[i]).0 == ms[i].start && reps[i].1
                == ms[i].end,
    ensures
        reps_wf(body, reps, from),
    decreases ms.len(),
{
    if ms.len() == 0 {
    } else {
        lemma_math_reps_wf(body, ms.drop_first(), reps.drop_first(), ms[0].end);
    }
}

/// Substitute the given rendered markup for the body's math spans, in scan
/// order.
pub fn apply_math_replacements(body: &Vec<u8>, rendered: &Vec<Vec<u8>>) -> (r: Vec<u8>)
    requires
        rendered@.len() == math_scan(body@, 0).len(),
    ensures
        r@ == math_result(body@, rendered@.map_values(|v: Vec<u8>| v@)),
{
    let spans = scan_math(body);
    let ghost rviews = rendered@.map_values(|v: Vec<u8>| v@);
    let mut reps: Vec<Rep> = Vec::new();
    let mut i: usize = 0;
    while i < spans.len()
        invariant
            span_views(spans@) == math_scan(body@, 0),
            rendered@.len() == math_scan(body@, 0).len(),
            rviews == rendered@.map_values(|v: Vec<u8>| v@),
            i <= spans@.len(),
            reps@.len() == i,
            forall|k: int|
                0 <= k < i ==> (#[trigger] rep_views(reps@)[k]) == math_reps(body@, rviews)[k],
        decreases spans@.len() - i,
    {
        let ghost reps0 = reps@;
        proof {
            assert(span_views(spans@)[i as int] == spans@[i as int].view());
        }
        let start = spans[i].start;
        let end = spans[i].end;
        let ins = vstd::slice::slice_to_vec(rendered[i].as_slice());
        reps.push(Rep { start, end, ins });
        proof {
            assert(rep_views(reps@) =~= rep_views(reps0) + seq![reps@[i as int].view()]);
        }
        i += 1;
    }
    proof {
        assert(rep_views(reps@) =~= math_reps(body@, rviews));
        lemma_math_scan_wf(body@, 0);
        lemma_math_reps_wf(body@, math_scan(body@, 0), math_reps(body@, rviews), 0);
    }
    splice(body, &reps)
}

#[verifier::external_type_specification]
#[verifier::external_body]
pub struct ExKatexError(katex::Error);

/// The markup the math typesetter produces for `tex`, inline or in display
/// mode; it depends on the TeX source and the mode alone.
pub uninterp spec fn katex_of(tex: Seq<u8>, display: bool) -> Seq<u8>;

/// Whether the math typesetter accepts `tex` in the given mode; like the
/// markup it produces, this depends on the TeX source and the mode alone.
pub uninterp spec fn katex_accepts(tex: Seq<u8>, display: bool) -> bool;

/// Relies on `katex::render_with_opts`, with only `display_mode` set in the
/// options: it runs a fixed embedded typesetter, so both the rendered
/// markup and whether the input is accepted are functions of the TeX source
/// and the display flag alone. The options builder cannot fail here, as
/// every other field keeps its default.
#[verifier::external_body]
fn katex_render(tex: &Vec<u8>, display: bool) -> (r: Result<Vec<u8>, katex::Error>)
    ensures
        r is Ok <==> katex_accepts(tex@, display),
        r matches Ok(v) ==> v@ == katex_of(tex@, display),
{
    let src = String::from_utf8_lossy(tex).into_owned();
    let opts = katex::Opts::builder().display_mode(display).build().unwrap();
    match katex::render_with_opts(&src, opts) {
        Ok(html) => Ok(html.into_bytes()),
        Err(e) => Err(e),
    }
}

/// The markup of each math span of `body`, in scan order.
pub open spec fn rendered_spans(body: Seq<u8>) -> Seq<Seq<u8>> {
    Seq::new(
        math_scan(body, 0).len(),
        |i: int| katex_of(math_scan(body, 0)[i].body, math_scan(body, 0)[i].display),
    )
}

/// The typesetter accepts every math span of `body`.
pub open spec fn all_spans_accepted(body: Seq<u8>) -> bool {
    forall|i: int|
        0 <= i < math_scan(body, 0).len() ==> katex_accepts(
            (#[trigger] math_scan(body, 0)[i]).body,
            math_scan(body, 0)[i].display,
        )
}

/// Render every math span of `body` and substitute the produced markup.
///
/// Succeeds exactly when the typesetter accepts every span — in particular,
/// a body without math spans comes back unchanged — and fails with
/// `RenderError` when it rejects one.
pub fn render_math(body: &Vec<u8>) -> (r: Result<Vec<u8>, SSGError>)
    ensures
        r is Ok <==> all_spans_accepted(body@),
        match r {
            Ok(v) => v@ == math_result(body@, rendered_spans(body@)),
            Err(e) => e == SSGError::RenderError,
        },
        math_scan(body@, 0).len() == 0 ==> (r matches Ok(v) && v@ == body@),
{
    let spans = scan_math(body);
    let mut rendered: Vec<Vec<u8>> = Vec::new();
    let mut i: usize = 0;
    while i < spans.len()
        invariant
            span_views(spans@) == math_scan(body@, 0),
            i <= spans@.len(),
            rendered@.len() == i,
            forall|k: int|
                0 <= k < i ==> katex_accepts(
                    (#[trigger] math_scan(body@, 0)[k]).body,
                    math_scan(body@, 0)[k].display,
                ),
            forall|k: int|
                0 <= k < i ==> (#[trigger] rendered@[k])@ == rendered_spans(body@)[k],
        decreases spans@.len() - i,
    {
        proof {
            assert(span_views(spans@)[i as int] == spans@[i as int].view());
        }
        match katex_render(&spans[i].body, spans[i].display) {
            Ok(v) => {
                rendered.push(v);
            },
            Err(_) => {
                proof {
                    assert(!katex_accepts(
                        math_scan(body@, 0)[i as int].body,
                        math_scan(body@, 0)[i as int].display,
                    ));
                    assert(!all_spans_accepted(body@));
                }
                return Err(SSGError::RenderError);
            },
        }
        i += 1;
    }
    proof {
        assert(all_spans_accepted(body@));
    }
    let out = apply_math_replacements(body, &rendered);
    proof {
        assert(rendered@.map_values(|v: Vec<u8>| v@) =~= rendered_spans(body@));
        if math_scan(body@, 0).len() == 0 {
            assert(math_reps(body@, rendered_spans(body@)) =~= Seq::<(int, int, Seq<u8>)>::empty());
            crate::text::lemma_splice_empty(body@, math_reps(body@, rendered_spans(body@)));
        }
    }
    Ok(out)
}

} // verus!
