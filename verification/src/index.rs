//! The index renderer: an HTML fragment listing every post, grouped by
//! calendar year, most recent year first, in the order the sorted collection
//! already has.
use crate::collection::{entries_wf, PostEntry};
use crate::date::{four_digits, month_day};
use crate::lit::{
    attr_close, attr_close_vec, date_open, date_open_vec, item_close, item_close_vec, item_open,
    item_open_vec, legend_close, legend_close_vec, span_close, span_close_vec, title_open,
    title_open_vec, year_close, year_close_vec, year_open, year_open_vec,
};
use vstd::prelude::*;

verus! {

/// The heading that opens the listing group of year `y`.
pub open spec fn year_heading(y: int) -> Seq<u8> {
    year_open() + four_digits(y) + legend_close()
}

/// The listing item of one post: its link, title and date.
pub open spec fn entry_item(e: PostEntry) -> Seq<u8> {
    item_open() + e.slug@ + attr_close() + title_open() + e.config.title@ + span_close()
        + date_open() + month_day(e.config.date) + span_close() + item_close()
}

/// The listing of `s` given that the group of year `cur` is open: each year
/// boundary crossed closes the group and opens the next, and the last group
/// is closed at the end.
pub open spec fn index_rest(s: Seq<PostEntry>, cur: int) -> Seq<u8>
    decreases s.len(),
{
    if s.len() == 0 {
        year_close()
    } else {
        let y = s[0].config.date.year as int;
        (if y < cur {
            year_close() + seq![10u8] + year_heading(y)
        } else {
            Seq::empty()
        }) + entry_item(s[0]) + index_rest(s.drop_first(), if y < cur {
            y
        } else {
            cur
        })
    }
}

/// The whole index fragment: empty for an empty collection.
pub open spec fn index_html(s: Seq<PostEntry>) -> Seq<u8> {
    if s.len() == 0 {
        Seq::empty()
    } else {
        year_heading(s[0].config.date.year as int) + index_rest(s, s[0].config.date.year as int)
    }
}

fn push_year_heading(out: &mut Vec<u8>, y: u32)
    requires
        1000 <= y <= 9999,
    ensures
        final(out)@ == old(out)@ + year_heading(y as int),
{
    let mut v = year_open_vec();
    v.push(48 + (y / 1000) as u8);
    v.push(48 + ((y / 100) % 10) as u8);
    v.push(48 + ((y / 10) % 10) as u8);
    v.push(48 + (y % 10) as u8);
    let mut tail = legend_close_vec();
    v.append(&mut tail);
    proof {
        assert(v@ =~= year_heading(y as int));
    }
    out.append(&mut v);
}

fn push_entry_item(out: &mut Vec<u8>, e: &PostEntry)
    requires
        crate::page::config_wf(e.config),
    ensures
        final(out)@ == old(out)@ + entry_item(*e),
{
    let mut v = item_open_vec();
    crate::text::extend_range(&mut v, &e.slug, 0, e.slug.len());
    let mut part = attr_close_vec();
    v.append(&mut part);
    let mut part = title_open_vec();
    v.append(&mut part);
    crate::text::extend_range(&mut v, &e.config.title, 0, e.config.title.len());
    let mut part = span_close_vec();
    v.append(&mut part);
    let mut part = date_open_vec();
    v.append(&mut part);
    let mut part = e.config.date.format_month_day();
    v.append(&mut part);
    let mut part = span_close_vec();
    v.append(&mut part);
    let mut part = item_close_vec();
    v.append(&mut part);
    proof {
        assert(e.slug@.subrange(0, e.slug@.len() as int) =~= e.slug@);
        assert(e.config.title@.subrange(0, e.config.title@.len() as int) =~= e.config.title@);
        assert(v@ =~= entry_item(*e));
    }
    out.append(&mut v);
}

/// Render the index listing of the sorted collection. An empty collection
/// yields an empty fragment.
pub fn generate_index_content(entries: &Vec<PostEntry>) -> (r: Vec<u8>)
    requires
        entries_wf(entries@),
    ensures
        r@ == index_html(entries@),
        entries@.len() == 0 ==> r@ == Seq::<u8>::empty(),
{
    let mut out: Vec<u8> = Vec::new();
    if entries.len() == 0 {
        proof {
            assert(out@ =~= index_html(entries@));
        }
        return out;
    }
    let mut cur: u32 = entries[0].config.date.year;
    push_year_heading(&mut out, cur);
    let mut i: usize = 0;
    proof {
        assert(entries@.skip(0) =~= entries@);
    }
    while i < entries.len()
        invariant
            entries_wf(entries@),
            0 < entries@.len(),
            i <= entries@.len(),
            1000 <= cur <= 9999,
            index_html(entries@) == out@ + index_rest(entries@.skip(i as int), cur as int),
        decreases entries@.len() - i,
    {
        let ghost rest = entries@.skip(i as int);
        proof {
            assert(rest[0] == entries@[i as int]);
            assert(rest.drop_first() =~= entries@.skip(i as int + 1));
        }
        let y = entries[i].config.date.year;
        if y < cur {
            let mut part = year_close_vec();
            out.append(&mut part);
            out.push(10);
            push_year_heading(&mut out, y);
            cur = y;
        }
        push_entry_item(&mut out, &entries[i]);
        i += 1;
    }
    proof {
        assert(entries@.skip(i as int).len() == 0);
    }
    let mut part = year_close_vec();
    out.append(&mut part);
    out
}

} // verus!
