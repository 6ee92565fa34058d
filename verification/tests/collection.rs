use ssg::collection::{slug_of, sort_entries, PostEntry};
use ssg::date::Date;
use ssg::page::PageConfig;
use ssg::SSGError;

fn post(title: &str, date: Date, slug: &str) -> PostEntry {
    PostEntry {
        config: PageConfig {
            title: title.as_bytes().to_vec(),
            date,
            description: None,
            template: None,
            features: None,
            scripts: None,
            link: None,
            language: None,
        },
        slug: slug.as_bytes().to_vec(),
    }
}

fn day(y: u32, m: u32, d: u32) -> Date {
    Date::new(y, m, d, 0, 0, 0).unwrap()
}

#[test]
fn slug_is_directory_relative_to_posts_root() {
    let slug = slug_of(&b"private/content/posts/my-post/index.md".to_vec()).unwrap();
    assert_eq!(slug, b"my-post".to_vec());
}

#[test]
fn slug_keeps_nested_directories() {
    let slug = slug_of(&b"private/content/posts/2022/trip/index.md".to_vec()).unwrap();
    assert_eq!(slug, b"2022/trip".to_vec());
}

#[test]
fn slug_outside_posts_root_fails() {
    assert_eq!(
        slug_of(&b"private/content/pages/about.md".to_vec()),
        Err(SSGError::DiscoveryError)
    );
}

#[test]
fn descending_sort_with_stable_tie_break() {
    let entries = vec![
        post("oldest", day(2021, 1, 1), "a"),
        post("tie-first-discovered", day(2022, 6, 15), "b"),
        post("tie-second-discovered", day(2022, 6, 15), "c"),
    ];
    let sorted = sort_entries(entries);
    let titles: Vec<&[u8]> = sorted.iter().map(|e| e.config.title.as_slice()).collect();
    assert_eq!(
        titles,
        vec![
            b"tie-first-discovered".as_slice(),
            b"tie-second-discovered".as_slice(),
            b"oldest".as_slice(),
        ]
    );
}

#[test]
fn sort_orders_by_time_within_a_day() {
    let entries = vec![
        post("morning", Date::new(2022, 6, 15, 8, 0, 0).unwrap(), "a"),
        post("evening", Date::new(2022, 6, 15, 20, 0, 0).unwrap(), "b"),
    ];
    let sorted = sort_entries(entries);
    assert_eq!(sorted[0].config.title, b"evening".to_vec());
    assert_eq!(sorted[1].config.title, b"morning".to_vec());
}

#[test]
fn invalid_dates_are_rejected() {
    assert!(Date::new(2023, 2, 29, 0, 0, 0).is_none());
    assert!(Date::new(2024, 2, 29, 0, 0, 0).is_some());
    assert!(Date::new(2022, 4, 31, 0, 0, 0).is_none());
    assert!(Date::new(2022, 13, 1, 0, 0, 0).is_none());
    assert!(Date::new(2022, 6, 15, 24, 0, 0).is_none());
}
