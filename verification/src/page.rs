//! The document model: per-page metadata and the page body, the body
//! preprocessing pipeline, and the selection of a fully populated template
//! binding for a parsed page.
use crate::collection::PostEntry;
use crate::date::{date_wf, long_date, Date};
use crate::lit::{
    lang_en, lang_en_vec, tpl_default, tpl_default_vec, tpl_home, tpl_home_vec, tpl_top,
    tpl_top_vec,
};
use crate::math::{math_result, math_scan, render_math, rendered_spans};
use crate::rss::opt_view;
use crate::svg::{img_scan, inline_images, inline_ok, inline_result};
use crate::text::eq_bytes;
use crate::SSGError;
use vstd::prelude::*;

verus! {

/// Optional features a page may declare.
#[derive(Clone, Copy, PartialEq, Eq, Structural, Debug)]
pub enum Feature {
    Katex,
    MathJax,
    Highlight,
}

/// Metadata read from a page's front matter. `title` and `date` are always
/// present; every other field is optional.
pub struct PageConfig {
    pub title: Vec<u8>,
    pub date: Date,
    pub description: Option<Vec<u8>>,
    pub template: Option<Vec<u8>>,
    pub features: Option<Vec<Feature>>,
    pub scripts: Option<Vec<Vec<u8>>>,
    pub link: Option<Vec<Vec<u8>>>,
    pub language: Option<Vec<u8>>,
}

/// A page: its metadata and its (preprocessed) body text.
pub struct Page {
    pub config: PageConfig,
    pub content: Vec<u8>,
}

/// The metadata's validity: its date is a well-formed calendar date.
pub open spec fn config_wf(c: PageConfig) -> bool {
    date_wf(c.date)
}

/// The declared feature set contains `f`.
pub open spec fn spec_has_feature(fs: Option<Vec<Feature>>, f: Feature) -> bool {
    match fs {
        Some(v) => v@.contains(f),
        None => false,
    }
}

/// Whether the page declares feature `f`. Duplicate entries are harmless:
/// the declared features are read with set semantics.
pub fn has_feature(fs: &Option<Vec<Feature>>, f: Feature) -> (r: bool)
    ensures
        r == spec_has_feature(*fs, f),
{
    match fs {
        Some(v) => {
            let mut i: usize = 0;
            while i < v.len()
                invariant
                    *fs == Some(*v),
                    i <= v@.len(),
                    forall|k: int| 0 <= k < i ==> v@[k] != f,
                decreases v@.len() - i,
            {
                if v[i] == f {
                    proof {
                        assert(v@[i as int] == f);
                        assert(v@.contains(f));
                    }
                    return true;
                }
                i += 1;
            }
            false
        },
        None => false,
    }
}

/// Apply the body-level passes in their fixed order: SVG inlining first, on
/// the raw body, then math rendering on the inlined result, but only when
/// the page declares the math feature. `assets[i]` holds the content of the
/// file the `i`-th image placeholder references, in scan order. Once every
/// asset resolves, the pass succeeds exactly when the typesetter accepts
/// every math span of the inlined body (vacuously, when math is off).
pub fn preprocess(body: &Vec<u8>, assets: &Vec<Option<Vec<u8>>>, math: bool) -> (r: Result<
    Vec<u8>,
    SSGError,
>)
    requires
        assets@.len() == img_scan(body@, 0).len(),
    ensures
        !inline_ok(body@, assets@) ==> r == Err::<Vec<u8>, SSGError>(SSGError::AssetError),
        inline_ok(body@, assets@) && !math ==> (r matches Ok(v) && v@ == inline_result(
            body@,
            assets@,
        )),
        inline_ok(body@, assets@) && math ==> (r is Ok <==> crate::math::all_spans_accepted(
            inline_result(body@, assets@),
        )),
        inline_ok(body@, assets@) && math ==> match r {
            Ok(v) => v@ == math_result(
                inline_result(body@, assets@),
                rendered_spans(inline_result(body@, assets@)),
            ),
            Err(e) => e == SSGError::RenderError,
        },
{
    match inline_images(body, assets) {
        Ok(mid) => {
            if math {
                render_math(&mid)
            } else {
                Ok(mid)
            }
        },
        Err(e) => Err(e),
    }
}

/// A body with no image placeholder and no math span passes through
/// preprocessing unchanged, whatever the assets; the page's rendered
/// content is then the direct Markdown conversion of the raw body.
pub proof fn lemma_preprocess_no_triggers(body: Seq<u8>, assets: Seq<Option<Vec<u8>>>)
    requires
        img_scan(body, 0).len() == 0,
        math_scan(body, 0).len() == 0,
    ensures
        inline_ok(body, assets),
        inline_result(body, assets) == body,
        math_result(body, rendered_spans(body)) == body,
{
    crate::svg::lemma_inline_no_placeholders(body, assets);
    assert(crate::math::math_reps(body, rendered_spans(body)) =~= Seq::<
        (int, int, Seq<u8>),
    >::empty());
    crate::text::lemma_splice_empty(body, crate::math::math_reps(body, rendered_spans(body)));
}

/// The HTML the Markdown engine produces for the given body; it depends on
/// the body text alone.
pub uninterp spec fn markdown_html_of(md: Seq<u8>) -> Seq<u8>;

/// Relies on pulldown_cmark (`Parser::new_ext` with tables enabled, and
/// `html::push_html`): the conversion is a function of the input text
/// alone.
#[verifier::external_body]
fn markdown_to_html(md: &Vec<u8>) -> (r: Vec<u8>)
    ensures
        r@ == markdown_html_of(md@),
{
    let text = String::from_utf8_lossy(md);
    let mut options = pulldown_cmark::Options::empty();
    options.insert(pulldown_cmark::Options::ENABLE_TABLES);
    let parser = pulldown_cmark::Parser::new_ext(&text, options);
    let mut html = String::new();
    pulldown_cmark::html::push_html(&mut html, parser);
    html.into_bytes()
}

pub open spec fn vecs_view(v: Seq<Vec<u8>>) -> Seq<Seq<u8>> {
    v.map_values(|x: Vec<u8>| x@)
}

pub open spec fn opt_vecs_view(o: Option<Vec<Vec<u8>>>) -> Seq<Seq<u8>> {
    match o {
        Some(v) => vecs_view(v@),
        None => Seq::empty(),
    }
}

/// The bound fields of a template variant, fully populated; the external
/// template engine substitutes them into the variant's markup.
pub enum TemplateBinding {
    Default {
        title: Vec<u8>,
        language: Vec<u8>,
        date: Vec<u8>,
        description: Option<Vec<u8>>,
        mathjax: bool,
        highlight: bool,
        scripts: Vec<Vec<u8>>,
        link: Vec<Vec<u8>>,
        content: Vec<u8>,
    },
    Top { title: Vec<u8>, description: Option<Vec<u8>>, link: Vec<Vec<u8>>, content: Vec<u8> },
    Home {
        title: Vec<u8>,
        description: Option<Vec<u8>>,
        link: Vec<Vec<u8>>,
        content: Vec<u8>,
        configs: Vec<PostEntry>,
    },
}

/// `b` is the default layout's binding for `page`.
pub open spec fn is_default_binding(page: Page, b: TemplateBinding) -> bool {
    match b {
        TemplateBinding::Default {
            title,
            language,
            date,
            description,
            mathjax,
            highlight,
            scripts,
            link,
            content,
        } => {
            &&& title@ == page.config.title@
            &&& language@ == match page.config.language {
                Some(l) => l@,
                None => lang_en(),
            }
            &&& date@ == long_date(page.config.date)
            &&& opt_view(description) == opt_view(page.config.description)
            &&& mathjax == spec_has_feature(page.config.features, Feature::MathJax)
            &&& highlight == spec_has_feature(page.config.features, Feature::Highlight)
            &&& vecs_view(scripts@) == opt_vecs_view(page.config.scripts)
            &&& vecs_view(link@) == opt_vecs_view(page.config.link)
            &&& content@ == markdown_html_of(page.content@)
        },
        _ => false,
    }
}

/// `b` is the `top` variant's binding for `page`.
pub open spec fn is_top_binding(page: Page, b: TemplateBinding) -> bool {
    match b {
        TemplateBinding::Top { title, description, link, content } => {
            &&& title@ == page.config.title@
            &&& opt_view(description) == opt_view(page.config.description)
            &&& vecs_view(link@) == opt_vecs_view(page.config.link)
            &&& content@ == markdown_html_of(page.content@)
        },
        _ => false,
    }
}

/// `b` is the `home` variant's binding for `page`, carrying the sorted
/// collection.
pub open spec fn is_home_binding(page: Page, entries: Seq<PostEntry>, b: TemplateBinding) -> bool {
    match b {
        TemplateBinding::Home { title, description, link, content, configs } => {
            &&& title@ == page.config.title@
            &&& opt_view(description) == opt_view(page.config.description)
            &&& vecs_view(link@) == opt_vecs_view(page.config.link)
            &&& content@ == markdown_html_of(page.content@)
            &&& configs@ == entries
        },
        _ => false,
    }
}

fn copy_opt_bytes(o: &Option<Vec<u8>>) -> (r: Option<Vec<u8>>)
    ensures
        opt_view(r) == opt_view(*o),
{
    match o {
        Some(v) => Some(vstd::slice::slice_to_vec(v.as_slice())),
        None => None,
    }
}

fn copy_opt_vecs(o: &Option<Vec<Vec<u8>>>) -> (r: Vec<Vec<u8>>)
    ensures
        vecs_view(r@) == opt_vecs_view(*o),
{
    match o {
        Some(v) => {
            let mut out: Vec<Vec<u8>> = Vec::new();
            let mut i: usize = 0;
            while i < v.len()
                invariant
                    *o == Some(*v),
                    i <= v@.len(),
                    out@.len() == i,
                    forall|k: int| 0 <= k < i ==> (#[trigger] out@[k])@ == v@[k]@,
                decreases v@.len() - i,
            {
                out.push(vstd::slice::slice_to_vec(v[i].as_slice()));
                i += 1;
            }
            proof {
                assert(vecs_view(out@) =~= vecs_view(v@));
            }
            out
        },
        None => {
            let out: Vec<Vec<u8>> = Vec::new();
            proof {
                assert(vecs_view(out@) =~= Seq::<Seq<u8>>::empty());
            }
            out
        },
    }
}

/// Assemble the default layout's binding for `page`, with its body already
/// converted to `content`.
fn build_default(page: &Page, content: Vec<u8>) -> (b: TemplateBinding)
    requires
        config_wf(page.config),
        content@ == markdown_html_of(page.content@),
    ensures
        is_default_binding(*page, b),
{
    let title = vstd::slice::slice_to_vec(page.config.title.as_slice());
    let description = copy_opt_bytes(&page.config.description);
    let link = copy_opt_vecs(&page.config.link);
    let language = match &page.config.language {
        Some(l) => vstd::slice::slice_to_vec(l.as_slice()),
        None => lang_en_vec(),
    };
    let date = page.config.date.format_long();
    let mathjax = has_feature(&page.config.features, Feature::MathJax);
    let highlight = has_feature(&page.config.features, Feature::Highlight);
    let scripts = copy_opt_vecs(&page.config.scripts);
    TemplateBinding::Default {
        title,
        language,
        date,
        description,
        mathjax,
        highlight,
        scripts,
        link,
        content,
    }
}

/// Convert the page's body to HTML and assemble the binding of the declared
/// template variant: the default layout when no template is declared or
/// when the declared name is `default`, the `top` or `home` variant when so
/// named. The `home` variant carries the sorted collection `entries`.
///
/// Fails with `UnknownTemplate` exactly when the declared name is none of
/// `default`, `top` and `home`, and produces nothing then.
pub fn generate_html(page: &Page, entries: Vec<PostEntry>) -> (r: Result<
    TemplateBinding,
    SSGError,
>)
    requires
        config_wf(page.config),
    ensures
        match r {
            Ok(b) => match page.config.template {
                None => is_default_binding(*page, b),
                Some(t) => (t@ == tpl_top() && is_top_binding(*page, b)) || (t@ == tpl_home()
                    && is_home_binding(*page, entries@, b)) || (t@ == tpl_default()
                    && is_default_binding(*page, b)),
            },
            Err(e) => {
                &&& e == SSGError::UnknownTemplate
                &&& page.config.template matches Some(t) && t@ != tpl_top() && t@ != tpl_home()
                    && t@ != tpl_default()
            },
        },
{
    let content = markdown_to_html(&page.content);
    match &page.config.template {
        Some(t) => {
            let top = tpl_top_vec();
            let home = tpl_home_vec();
            let fallback = tpl_default_vec();
            if eq_bytes(t, &top) {
                let title = vstd::slice::slice_to_vec(page.config.title.as_slice());
                let description = copy_opt_bytes(&page.config.description);
                let link = copy_opt_vecs(&page.config.link);
                Ok(TemplateBinding::Top { title, description, link, content })
            } else if eq_bytes(t, &home) {
                let title = vstd::slice::slice_to_vec(page.config.title.as_slice());
                let description = copy_opt_bytes(&page.config.description);
                let link = copy_opt_vecs(&page.config.link);
                Ok(
                    TemplateBinding::Home {
                        title,
                        description,
                        link,
                        content,
                        configs: entries,
                    },
                )
            } else if eq_bytes(t, &fallback) {
                Ok(build_default(page, content))
            } else {
                Err(SSGError::UnknownTemplate)
            }
        },
        None => Ok(build_default(page, content)),
    }
}

} // verus!
