use ssg::collection::{sort_entries, PostEntry};
use ssg::date::Date;
use ssg::index::generate_index_content;
use ssg::page::{generate_html, Page, PageConfig, TemplateBinding};
use ssg::rss::generate_feed;
use ssg::{parse_command, Command, SSGError};

fn config(title: &str, date: Date) -> PageConfig {
    PageConfig {
        title: title.as_bytes().to_vec(),
        date,
        description: None,
        template: None,
        features: None,
        scripts: None,
        link: None,
        language: None,
    }
}

fn post(title: &str, date: Date, slug: &str) -> PostEntry {
    PostEntry { config: config(title, date), slug: slug.as_bytes().to_vec() }
}

fn day(y: u32, m: u32, d: u32) -> Date {
    Date::new(y, m, d, 0, 0, 0).unwrap()
}

#[test]
fn empty_collection_yields_empty_fragment() {
    let out = generate_index_content(&Vec::new());
    assert_eq!(out, Vec::<u8>::new());
}

#[test]
fn index_lists_entries_and_groups_years() {
    let entries = vec![
        post("New post", day(2022, 6, 15), "new"),
        post("Old post", day(2021, 1, 1), "old"),
    ];
    let out = generate_index_content(&entries);
    let mut expected = String::new();
    expected.push_str("<fieldset class=\"year\"><legend>2022</legend>");
    expected.push_str("<a class=\"post\" href=\"/posts/new\">");
    expected.push_str("<span class=\"title\">New post</span>");
    expected.push_str("<span class=\"date\">Jun 15</span></a>");
    expected.push_str("</fieldset>\n");
    expected.push_str("<fieldset class=\"year\"><legend>2021</legend>");
    expected.push_str("<a class=\"post\" href=\"/posts/old\">");
    expected.push_str("<span class=\"title\">Old post</span>");
    expected.push_str("<span class=\"date\">Jan 01</span></a>");
    expected.push_str("</fieldset>");
    assert_eq!(String::from_utf8_lossy(&out), expected);
}

#[test]
fn feed_takes_the_ten_most_recent() {
    let mut entries = Vec::new();
    for i in 0..12u32 {
        // days 1..=12 of June; discovery order is oldest first here
        entries.push(post(&format!("post-{i}"), day(2022, 6, 1 + i), &format!("p{i}")));
    }
    let sorted = sort_entries(entries);
    let feed = generate_feed(&b"https://example.org".to_vec(), &b"My site".to_vec(), &sorted);
    assert_eq!(feed.items.len(), 10);
    assert_eq!(feed.title, b"My site".to_vec());
    assert_eq!(feed.url, b"https://example.org".to_vec());
    // newest first: days 12 down to 3; days 2 and 1 fall out
    assert_eq!(feed.items[0].title, b"post-11".to_vec());
    assert_eq!(feed.items[9].title, b"post-2".to_vec());
    assert_eq!(feed.items[0].link, b"https://example.org/posts/p11".to_vec());
    assert_eq!(feed.items[0].guid, feed.items[0].link);
}

#[test]
fn feed_dates_use_rfc2822() {
    let entries = vec![post("p", day(2022, 6, 15), "p")];
    let feed = generate_feed(&b"https://e.org".to_vec(), &b"t".to_vec(), &entries);
    assert_eq!(feed.items[0].date, b"Wed, 15 Jun 2022 00:00:00 +0000".to_vec());
}

#[test]
fn unknown_template_is_rejected() {
    let mut c = config("t", day(2022, 6, 15));
    c.template = Some(b"nonexistent".to_vec());
    let page = Page { config: c, content: b"body".to_vec() };
    assert!(matches!(
        generate_html(&page, Vec::new()),
        Err(SSGError::UnknownTemplate)
    ));
}

#[test]
fn default_template_binds_all_fields() {
    let mut c = config("A title", Date::new(2021, 1, 1, 12, 30, 0).unwrap());
    c.description = Some(b"about".to_vec());
    c.scripts = Some(vec![b"a.js".to_vec()]);
    c.language = Some(b"de".to_vec());
    let page = Page { config: c, content: b"# Hi".to_vec() };
    match generate_html(&page, Vec::new()).unwrap() {
        TemplateBinding::Default { title, language, date, description, mathjax, highlight, scripts, content, .. } => {
            assert_eq!(title, b"A title".to_vec());
            assert_eq!(language, b"de".to_vec());
            assert_eq!(date, b"Jan  1, 2021".to_vec());
            assert_eq!(description, Some(b"about".to_vec()));
            assert!(!mathjax);
            assert!(!highlight);
            assert_eq!(scripts, vec![b"a.js".to_vec()]);
            assert!(String::from_utf8_lossy(&content).contains("<h1>Hi</h1>"));
        },
        _ => panic!("expected the default binding"),
    }
}

#[test]
fn declared_default_template_selects_default_layout() {
    let mut c = config("t", day(2022, 6, 15));
    c.template = Some(b"default".to_vec());
    let page = Page { config: c, content: b"x".to_vec() };
    assert!(matches!(
        generate_html(&page, Vec::new()).unwrap(),
        TemplateBinding::Default { .. }
    ));
}

#[test]
fn language_defaults_to_en() {
    let page = Page { config: config("t", day(2022, 6, 15)), content: Vec::new() };
    match generate_html(&page, Vec::new()).unwrap() {
        TemplateBinding::Default { language, .. } => assert_eq!(language, b"en".to_vec()),
        _ => panic!("expected the default binding"),
    }
}

#[test]
fn home_template_carries_the_collection() {
    let mut c = config("home", day(2022, 6, 15));
    c.template = Some(b"home".to_vec());
    let page = Page { config: c, content: Vec::new() };
    let entries = vec![post("p", day(2021, 1, 1), "p")];
    match generate_html(&page, entries).unwrap() {
        TemplateBinding::Home { configs, .. } => {
            assert_eq!(configs.len(), 1);
            assert_eq!(configs[0].config.title, b"p".to_vec());
        },
        _ => panic!("expected the home binding"),
    }
}

#[test]
fn top_template_binds_content() {
    let mut c = config("top page", day(2022, 6, 15));
    c.template = Some(b"top".to_vec());
    let page = Page { config: c, content: b"plain".to_vec() };
    match generate_html(&page, Vec::new()).unwrap() {
        TemplateBinding::Top { title, content, .. } => {
            assert_eq!(title, b"top page".to_vec());
            assert!(String::from_utf8_lossy(&content).contains("plain"));
        },
        _ => panic!("expected the top binding"),
    }
}

#[test]
fn body_without_triggers_round_trips_to_direct_conversion() {
    let body = b"# Title\n\nsome *emphasis* and a [link](/x)".to_vec();
    // the full pipeline on a body with no placeholders and no math feature
    let processed = ssg::page::preprocess(&body, &Vec::new(), false).unwrap();
    assert_eq!(processed, body);
    let via_pipeline = Page { config: config("t", day(2022, 6, 15)), content: processed };
    let direct = Page { config: config("t", day(2022, 6, 15)), content: body };
    let b1 = generate_html(&via_pipeline, Vec::new()).unwrap();
    let b2 = generate_html(&direct, Vec::new()).unwrap();
    match (b1, b2) {
        (
            TemplateBinding::Default { content: c1, .. },
            TemplateBinding::Default { content: c2, .. },
        ) => assert_eq!(c1, c2),
        _ => panic!("expected default bindings"),
    }
}

#[test]
fn command_words_map_to_operations() {
    assert_eq!(parse_command(&b"feed".to_vec()), Some(Command::Feed));
    assert_eq!(parse_command(&b"index".to_vec()), Some(Command::Index));
    assert_eq!(parse_command(&b"page".to_vec()), Some(Command::Page));
    assert_eq!(parse_command(&b"serve".to_vec()), None);
}
