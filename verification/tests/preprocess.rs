use ssg::math::{apply_math_replacements, render_math, scan_math};
use ssg::page::preprocess;
use ssg::svg::{extract_svg, inline_images, resolve_asset_path, scan_images, strip_ids};
use ssg::SSGError;

#[test]
fn scan_finds_placeholder_parts() {
    let body = b"pre <img data-inline=\"true\" src=\"a.svg\" alt=\"x\"/> post".to_vec();
    let tags = scan_images(&body);
    assert_eq!(tags.len(), 1);
    assert!(tags[0].strip_ids);
    assert_eq!(tags[0].src, b"a.svg".to_vec());
    assert_eq!(&body[tags[0].start..tags[0].end], &b"<img data-inline=\"true\" src=\"a.svg\" alt=\"x\"/>"[..]);
}

#[test]
fn scan_finds_matches_left_to_right() {
    let body =
        b"<img data-inline=\"false\" src=\"a.svg\"/> mid <img data-inline=\"true\" src=\"b.svg\"/>"
            .to_vec();
    let tags = scan_images(&body);
    assert_eq!(tags.len(), 2);
    assert!(!tags[0].strip_ids);
    assert_eq!(tags[0].src, b"a.svg".to_vec());
    assert!(tags[1].strip_ids);
    assert_eq!(tags[1].src, b"b.svg".to_vec());
    assert!(tags[0].end <= tags[1].start);
}

#[test]
fn inlining_without_placeholders_returns_body_unchanged() {
    let body = b"plain *markdown* with an <img src=\"x\"> tag of another shape".to_vec();
    let out = inline_images(&body, &Vec::new()).unwrap();
    assert_eq!(out, body);
}

#[test]
fn inlining_substitutes_fragment() {
    let body = b"pre <img data-inline=\"false\" src=\"a.svg\"/> post".to_vec();
    let asset = b"<?xml?><svg width=\"3\"><circle/></svg> trailing".to_vec();
    let out = inline_images(&body, &vec![Some(asset)]).unwrap();
    assert_eq!(out, b"pre <svg width=\"3\"><circle/></svg> post".to_vec());
}

#[test]
fn missing_asset_fails() {
    let body = b"<img data-inline=\"false\" src=\"a.svg\"/>".to_vec();
    assert_eq!(inline_images(&body, &vec![None]), Err(SSGError::AssetError));
}

#[test]
fn asset_without_svg_element_fails() {
    let body = b"<img data-inline=\"false\" src=\"a.svg\"/>".to_vec();
    let asset = b"<png>not a vector</png>".to_vec();
    assert_eq!(inline_images(&body, &vec![Some(asset)]), Err(SSGError::AssetError));
}

#[test]
fn strip_ids_removes_attributes() {
    let asset = b"<svg id=\"a\" x=\"1\"><g id=\"b\"/></svg>".to_vec();
    let out = strip_ids(&asset);
    assert_eq!(out, b"<svg  x=\"1\"><g /></svg>".to_vec());
}

#[test]
fn stripped_fragment_has_no_id_attribute() {
    let asset = b"<svg id=\"a\"><g id=\"b\" fill=\"red\"/></svg>".to_vec();
    let frag = extract_svg(&asset, true).unwrap();
    assert_eq!(frag, b"<svg ><g  fill=\"red\"/></svg>".to_vec());
    assert!(!frag.windows(4).any(|w| w == b"id=\""));
}

#[test]
fn unstripped_fragment_keeps_ids() {
    let asset = b"<svg id=\"a\"/></svg>".to_vec();
    let frag = extract_svg(&asset, false).unwrap();
    assert_eq!(frag, b"<svg id=\"a\"/></svg>".to_vec());
}

#[test]
fn site_rooted_path_resolves_under_static_root() {
    let p = resolve_asset_path(&b"/img/x.svg".to_vec(), &b"private/content/posts/foo".to_vec());
    assert_eq!(p, b"private/static/img/x.svg".to_vec());
}

#[test]
fn relative_path_resolves_under_page_dir() {
    let p = resolve_asset_path(&b"img/x.svg".to_vec(), &b"private/content/posts/foo".to_vec());
    assert_eq!(p, b"private/content/posts/foo/img/x.svg".to_vec());
}

#[test]
fn math_scan_tells_inline_from_block() {
    let body = b"a $x+y$ b $$z$$ c".to_vec();
    let spans = scan_math(&body);
    assert_eq!(spans.len(), 2);
    assert!(!spans[0].display);
    assert_eq!(spans[0].body, b"x+y".to_vec());
    assert!(spans[1].display);
    assert_eq!(spans[1].body, b"z".to_vec());
}

#[test]
fn math_spans_never_empty() {
    let spans = scan_math(&b"a $$ b".to_vec());
    assert_eq!(spans.len(), 0);
    let spans = scan_math(&b"$$$$".to_vec());
    assert_eq!(spans.len(), 0);
}

#[test]
fn apply_math_substitutes_in_order() {
    let body = b"a $x$ b $$y$$ c".to_vec();
    let rendered = vec![b"X".to_vec(), b"Y".to_vec()];
    let out = apply_math_replacements(&body, &rendered);
    assert_eq!(out, b"a X b Y c".to_vec());
}

#[test]
fn render_math_changes_spans() {
    let body = b"value: $x$".to_vec();
    let out = render_math(&body).unwrap();
    assert_ne!(out, body);
    let text = String::from_utf8_lossy(&out).into_owned();
    assert!(text.starts_with("value: "));
    assert!(text.contains("katex"));
    assert!(!text.contains('$'));
}

#[test]
fn rejected_tex_fails_with_render_error() {
    // an undefined control sequence makes the typesetter throw
    let body = b"$\\notarealcommand$".to_vec();
    assert_eq!(render_math(&body), Err(SSGError::RenderError));
}

#[test]
fn render_math_without_spans_is_identity() {
    let body = b"no math here".to_vec();
    assert_eq!(render_math(&body).unwrap(), body);
}

#[test]
fn placeholder_may_span_lines() {
    let body = b"<img data-inline=\"false\"\n src=\"a.svg\"".to_vec();
    // the newline breaks the fixed opener, so nothing matches
    assert_eq!(scan_images(&body).len(), 0);
    let body = b"<img data-inline=\"false\" src=\"a.svg\" alt=\"two\nlines\"/>".to_vec();
    // within the free-form tail a newline is allowed
    assert_eq!(scan_images(&body).len(), 1);
}

#[test]
fn id_attribute_does_not_match_across_lines() {
    let asset = b"<svg id=\"a\nb\"><g/></svg>".to_vec();
    // the closing quote sits on the next line, so the attribute stays
    assert_eq!(strip_ids(&asset), asset);
}

#[test]
fn inlining_strips_ids_of_each_placeholder() {
    let body = b"<img data-inline=\"true\" src=\"a.svg\"/>|<img data-inline=\"false\" src=\"b.svg\"/>"
        .to_vec();
    let a = b"<svg id=\"x\"/></svg>".to_vec();
    let b = b"<svg id=\"y\"/></svg>".to_vec();
    let out = inline_images(&body, &vec![Some(a), Some(b)]).unwrap();
    assert_eq!(out, b"<svg /></svg>|<svg id=\"y\"/></svg>".to_vec());
}

#[test]
fn preprocess_runs_svg_then_math() {
    let body = b"<img data-inline=\"false\" src=\"a.svg\"/> and $x$".to_vec();
    let asset = b"<svg/></svg>".to_vec();
    let out = preprocess(&body, &vec![Some(asset)], true).unwrap();
    let text = String::from_utf8_lossy(&out).into_owned();
    assert!(text.starts_with("<svg/></svg> and "));
    assert!(text.contains("katex"));
}
