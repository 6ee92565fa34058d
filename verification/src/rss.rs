//! The feed renderer: at most the ten most recent entries of the sorted
//! collection, each with its title, optional description, absolute link, a
//! unique identifier equal to that link, and an RFC 2822 date.
use crate::collection::{entries_wf, PostEntry};
use crate::date::rfc2822_of;
use crate::lit::{posts_seg, posts_seg_vec};
use vstd::prelude::*;

verus! {

/// One syndication item of the feed.
pub struct FeedItem {
    pub title: Vec<u8>,
    pub description: Option<Vec<u8>>,
    pub link: Vec<u8>,
    pub guid: Vec<u8>,
    pub date: Vec<u8>,
}

/// The feed document: the site's title and base URL, and the items.
pub struct Feed {
    pub title: Vec<u8>,
    pub url: Vec<u8>,
    pub items: Vec<FeedItem>,
}

pub open spec fn opt_view(o: Option<Vec<u8>>) -> Option<Seq<u8>> {
    match o {
        Some(v) => Some(v@),
        None => None,
    }
}

/// `item` renders `entry` for a site at `url`: same title and description,
/// the link joins the base URL, the posts segment and the slug, the unique
/// identifier equals the link, and the date is the entry's RFC 2822 form.
pub open spec fn feed_item_ok(item: FeedItem, entry: PostEntry, url: Seq<u8>) -> bool {
    &&& item.title@ == entry.config.title@
    &&& opt_view(item.description) == opt_view(entry.config.description)
    &&& item.link@ == url + posts_seg() + entry.slug@
    &&& item.guid@ == item.link@
    &&& item.date@ == rfc2822_of(
        entry.config.date.year as int,
        entry.config.date.month as int,
        entry.config.date.day as int,
        entry.config.date.hour as int,
        entry.config.date.minute as int,
        entry.config.date.second as int,
    )
}

fn copy_bytes(v: &Vec<u8>) -> (r: Vec<u8>)
    ensures
        r@ == v@,
{
    let r = vstd::slice::slice_to_vec(v.as_slice());
    r
}

fn copy_opt_bytes(o: &Option<Vec<u8>>) -> (r: Option<Vec<u8>>)
    ensures
        opt_view(r) == opt_view(*o),
{
    match o {
        Some(v) => Some(copy_bytes(v)),
        None => None,
    }
}

fn build_link(url: &Vec<u8>, slug: &Vec<u8>) -> (r: Vec<u8>)
    ensures
        r@ == url@ + posts_seg() + slug@,
{
    let mut r = copy_bytes(url);
    let mut seg = posts_seg_vec();
    r.append(&mut seg);
    crate::text::extend_range(&mut r, slug, 0, slug.len());
    proof {
        assert(slug@.subrange(0, slug@.len() as int) =~= slug@);
        assert(r@ =~= url@ + posts_seg() + slug@);
    }
    r
}

/// Render the feed of the sorted collection: the first entries, at most
/// ten, each as a syndication item.
pub fn generate_feed(url: &Vec<u8>, title: &Vec<u8>, entries: &Vec<PostEntry>) -> (r: Feed)
    requires
        entries_wf(entries@),
    ensures
        r.title@ == title@,
        r.url@ == url@,
        r.items@.len() == if entries@.len() < 10 {
            entries@.len()
        } else {
            10nat
        },
        forall|i: int|
            0 <= i < r.items@.len() ==> feed_item_ok(#[trigger] r.items@[i], entries@[i], url@),
{
    let mut items: Vec<FeedItem> = Vec::new();
    let mut i: usize = 0;
    while i < entries.len() && i < 10
        invariant
            entries_wf(entries@),
            i <= entries@.len(),
            i <= 10,
            items@.len() == i,
            forall|k: int| 0 <= k < i ==> feed_item_ok(#[trigger] items@[k], entries@[k], url@),
        decreases entries@.len() - i,
    {
        let e = &entries[i];
        let link = build_link(url, &e.slug);
        let guid = copy_bytes(&link);
        let item = FeedItem {
            title: copy_bytes(&e.config.title),
            description: copy_opt_bytes(&e.config.description),
            link,
            guid,
            date: e.config.date.format_rfc2822(),
        };
        items.push(item);
        i += 1;
    }
    Feed { title: copy_bytes(title), url: copy_bytes(url), items }
}

} // verus!
