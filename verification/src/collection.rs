//! The post collection: deriving a post's URL slug from its storage path and
//! sorting the collection by publication date, newest first, with discovery
//! order kept among equal dates.
use crate::date::{date_le, date_wf};
use crate::lit::{posts_root, posts_root_vec};
use crate::page::{config_wf, PageConfig};
use crate::text::lit_at;
use crate::SSGError;
use vstd::prelude::*;

verus! {

/// One aggregated post: its metadata and its URL slug.
pub struct PostEntry {
    pub config: PageConfig,
    pub slug: Vec<u8>,
}

/// Every entry of the collection has a well-formed date.
pub open spec fn entries_wf(s: Seq<PostEntry>) -> bool {
    forall|i: int| 0 <= i < s.len() ==> config_wf(#[trigger] s[i].config)
}

/// Position of the last `/` in `s`, if any.
pub open spec fn last_slash(s: Seq<u8>, upto: int) -> Option<int>
    decreases upto,
{
    if upto <= 0 {
        None
    } else if s[upto - 1] == 47 {
        Some(upto - 1)
    } else {
        last_slash(s, upto - 1)
    }
}

/// The slug of a post document at `path`: the path must lie under the posts
/// root, and the slug is the document's directory relative to that root. A
/// document sitting directly in the posts root gets the empty slug.
pub open spec fn slug_spec(path: Seq<u8>) -> Option<Seq<u8>> {
    if lit_at(path, 0, posts_root()) {
        let rel = path.subrange(posts_root().len() as int, path.len() as int);
        match last_slash(rel, rel.len() as int) {
            Some(k) => Some(rel.subrange(0, k)),
            None => if rel.len() == 0 {
                None
            } else {
                Some(Seq::empty())
            },
        }
    } else {
        None
    }
}

/// Derive the URL slug from a post document's path.
///
/// Fails with `DiscoveryError` exactly when the path does not lie below the
/// posts root or names the root itself.
pub fn slug_of(path: &Vec<u8>) -> (r: Result<Vec<u8>, SSGError>)
    ensures
        match r {
            Ok(slug) => slug_spec(path@) == Some(slug@),
            Err(e) => e == SSGError::DiscoveryError && slug_spec(path@) is None,
        },
{
    let root = posts_root_vec();
    if !crate::text::starts_with_at(path, &root, 0) {
        return Err(SSGError::DiscoveryError);
    }
    let rel = vstd::slice::slice_to_vec(
        vstd::slice::slice_subrange(path.as_slice(), root.len(), path.len()),
    );
    if rel.len() == 0 {
        proof {
            assert(last_slash(rel@, 0) is None);
        }
        return Err(SSGError::DiscoveryError);
    }
    let mut upto: usize = rel.len();
    while upto > 0
        invariant
            lit_at(path@, 0, posts_root()),
            rel@ == path@.subrange(posts_root().len() as int, path@.len() as int),
            rel@.len() > 0,
            upto <= rel@.len(),
            last_slash(rel@, rel@.len() as int) == last_slash(rel@, upto as int),
        decreases upto,
    {
        if rel[upto - 1] == 47 {
            let slug = vstd::slice::slice_to_vec(
                vstd::slice::slice_subrange(rel.as_slice(), 0, upto - 1),
            );
            return Ok(slug);
        }
        upto -= 1;
    }
    proof {
        assert(last_slash(rel@, 0) is None);
    }
    Ok(Vec::new())
}

/// The collection is ordered by date, newest first.
pub open spec fn sorted_desc(s: Seq<PostEntry>) -> bool {
    forall|i: int, j: int|
        0 <= i < j < s.len() ==> date_le(#[trigger] s[j].config.date, #[trigger] s[i].config.date)
}

/// Insert `x` into the sorted sequence `s`, after every entry whose date is
/// at or after `x`'s: an entry never overtakes an earlier-discovered entry
/// with the same date.
pub open spec fn insert_by_date(s: Seq<PostEntry>, x: PostEntry) -> Seq<PostEntry>
    decreases s.len(),
{
    if s.len() == 0 {
        seq![x]
    } else if date_le(x.config.date, s[0].config.date) {
        seq![s[0]] + insert_by_date(s.drop_first(), x)
    } else {
        seq![x] + s
    }
}

/// The collection sorted by date descending, processing entries in discovery
/// order; the insertion position makes the sort stable.
pub open spec fn sort_fold(acc: Seq<PostEntry>, rest: Seq<PostEntry>) -> Seq<PostEntry>
    decreases rest.len(),
{
    if rest.len() == 0 {
        acc
    } else {
        sort_fold(insert_by_date(acc, rest[0]), rest.drop_first())
    }
}

pub open spec fn sort_by_date_desc(s: Seq<PostEntry>) -> Seq<PostEntry> {
    sort_fold(Seq::empty(), s)
}

proof fn lemma_insert_prefix(s: Seq<PostEntry>, x: PostEntry, idx: int)
    requires
        0 <= idx <= s.len(),
        forall|k: int| 0 <= k < idx ==> date_le(x.config.date, #[trigger] s[k].config.date),
        idx < s.len() ==> !date_le(x.config.date, s[idx as int].config.date),
    ensures
        insert_by_date(s, x) == s.take(idx) + seq![x] + s.skip(idx),
    decreases idx,
{
    if idx == 0 {
        if s.len() == 0 {
            assert(insert_by_date(s, x) =~= s.take(0) + seq![x] + s.skip(0));
        } else {
            assert(insert_by_date(s, x) =~= s.take(0) + seq![x] + s.skip(0));
        }
    } else {
        lemma_insert_prefix(s.drop_first(), x, idx - 1);
        assert(s.drop_first().take(idx - 1) =~= s.take(idx).drop_first());
        assert(seq![s[0]] + (s.take(idx).drop_first() + seq![x] + s.drop_first().skip(idx - 1))
            =~= s.take(idx) + seq![x] + s.skip(idx));
    }
}

/// Insert one entry into the already sorted prefix.
fn insert_entry(out: &mut Vec<PostEntry>, x: PostEntry)
    ensures
        final(out)@ == insert_by_date(old(out)@, x),
{
    let ghost s = out@;
    let mut idx: usize = 0;
    while idx < out.len() && date_le_exec_entry(&out[idx], &x)
        invariant
            s == out@,
            idx <= out@.len(),
            forall|k: int| 0 <= k < idx ==> date_le(x.config.date, #[trigger] out@[k].config.date),
        decreases out@.len() - idx,
    {
        idx += 1;
    }
    proof {
        lemma_insert_prefix(s, x, idx as int);
    }
    out.insert(idx, x);
    proof {
        assert(out@ =~= s.take(idx as int) + seq![x] + s.skip(idx as int));
    }
}

/// `x`'s date is at or after `e`'s: `e` keeps its place ahead of `x`.
fn date_le_exec_entry(e: &PostEntry, x: &PostEntry) -> (r: bool)
    ensures
        r == date_le(x.config.date, e.config.date),
{
    crate::date::date_le_exec(&x.config.date, &e.config.date)
}

/// Sort the collection by date, newest first, keeping discovery order among
/// entries with equal dates.
pub fn sort_entries(entries: Vec<PostEntry>) -> (r: Vec<PostEntry>)
    ensures
        r@ == sort_by_date_desc(entries@),
{
    let ghost orig = entries@;
    let mut rest = entries;
    let mut out: Vec<PostEntry> = Vec::new();
    proof {
        assert(sort_fold(out@, rest@) == sort_by_date_desc(orig));
    }
    while rest.len() > 0
        invariant
            sort_fold(out@, rest@) == sort_by_date_desc(orig),
        decreases rest@.len(),
    {
        let ghost rest0 = rest@;
        let x = rest.remove(0);
        proof {
            assert(rest@ =~= rest0.drop_first());
        }
        insert_entry(&mut out, x);
    }
    out
}

proof fn lemma_insert_sorted(s: Seq<PostEntry>, x: PostEntry)
    requires
        sorted_desc(s),
    ensures
        sorted_desc(insert_by_date(s, x)),
        insert_by_date(s, x).len() == s.len() + 1,
        forall|i: int|
            0 <= i < insert_by_date(s, x).len() ==> (#[trigger] insert_by_date(s, x)[i] == x
                || exists|j: int| 0 <= j < s.len() && insert_by_date(s, x)[i] == s[j]),
    decreases s.len(),
{
    let t = insert_by_date(s, x);
    if s.len() == 0 {
    } else if date_le(x.config.date, s[0].config.date) {
        assert(sorted_desc(s.drop_first()));
        lemma_insert_sorted(s.drop_first(), x);
        let u = insert_by_date(s.drop_first(), x);
        assert(t =~= seq![s[0]] + u);
        assert forall|i: int, j: int| 0 <= i < j < t.len() implies date_le(
            t[j].config.date,
            t[i].config.date,
        ) by {
            if i == 0 {
                // every element of `u` is `x` or comes from `s.drop_first()`,
                // and either way its date is at or before `s[0]`'s
                if t[j] == x {
                } else {
                    assert(u[j - 1] == t[j]);
                    let w = choose|k: int| 0 <= k < s.drop_first().len() && u[j - 1] == s.drop_first()[k];
                    assert(date_le(s.drop_first()[w].config.date, s[0].config.date));
                }
            } else {
                assert(date_le(u[j - 1].config.date, u[i - 1].config.date));
            }
        }
    } else {
        assert forall|i: int, j: int| 0 <= i < j < t.len() implies date_le(
            t[j].config.date,
            t[i].config.date,
        ) by {
            if i == 0 {
                assert(!date_le(x.config.date, s[0].config.date));
                assert(date_le(s[0].config.date, x.config.date));
                if j >= 1 {
                    assert(t[j] == s[j - 1]);
                    if j - 1 > 0 {
                        assert(date_le(s[j - 1].config.date, s[0].config.date));
                    }
                    crate::date::lemma_date_le_trans(
                        s[j - 1].config.date,
                        s[0].config.date,
                        x.config.date,
                    );
                }
            }
        }
    }
}

proof fn lemma_sort_fold_sorted(acc: Seq<PostEntry>, rest: Seq<PostEntry>)
    requires
        sorted_desc(acc),
    ensures
        sorted_desc(sort_fold(acc, rest)),
    decreases rest.len(),
{
    if rest.len() == 0 {
    } else {
        lemma_insert_sorted(acc, rest[0]);
        lemma_sort_fold_sorted(insert_by_date(acc, rest[0]), rest.drop_first());
    }
}

/// The sorted collection is ordered by date, newest first.
pub proof fn lemma_sort_sorted(s: Seq<PostEntry>)
    ensures
        sorted_desc(sort_by_date_desc(s)),
{
    lemma_sort_fold_sorted(Seq::empty(), s);
}

proof fn lemma_insert_multiset(s: Seq<PostEntry>, x: PostEntry)
    ensures
        insert_by_date(s, x).to_multiset() == s.to_multiset().insert(x),
    decreases s.len(),
{
    broadcast use vstd::seq_lib::group_to_multiset_ensures;
    broadcast use vstd::multiset::group_multiset_axioms;

    if s.len() == 0 {
        assert(seq![x] =~= Seq::<PostEntry>::empty().push(x));
        assert(insert_by_date(s, x).to_multiset() =~= s.to_multiset().insert(x));
    } else if date_le(x.config.date, s[0].config.date) {
        lemma_insert_multiset(s.drop_first(), x);
        let u = insert_by_date(s.drop_first(), x);
        vstd::seq_lib::lemma_multiset_commutative(seq![s[0]], u);
        assert(s =~= seq![s[0]] + s.drop_first());
        vstd::seq_lib::lemma_multiset_commutative(seq![s[0]], s.drop_first());
        assert(insert_by_date(s, x).to_multiset() =~= s.to_multiset().insert(x));
    } else {
        vstd::seq_lib::lemma_multiset_commutative(seq![x], s);
        assert(seq![x] =~= Seq::<PostEntry>::empty().push(x));
        assert(insert_by_date(s, x).to_multiset() =~= s.to_multiset().insert(x));
    }
}

proof fn lemma_sort_fold_multiset(acc: Seq<PostEntry>, rest: Seq<PostEntry>)
    ensures
        sort_fold(acc, rest).to_multiset() == acc.to_multiset().add(rest.to_multiset()),
    decreases rest.len(),
{
    broadcast use vstd::seq_lib::group_to_multiset_ensures;
    broadcast use vstd::multiset::group_multiset_axioms;

    if rest.len() == 0 {
        assert(sort_fold(acc, rest).to_multiset() =~= acc.to_multiset().add(rest.to_multiset()));
    } else {
        lemma_insert_multiset(acc, rest[0]);
        lemma_sort_fold_multiset(insert_by_date(acc, rest[0]), rest.drop_first());
        assert(rest =~= seq![rest[0]] + rest.drop_first());
        vstd::seq_lib::lemma_multiset_commutative(seq![rest[0]], rest.drop_first());
        assert(seq![rest[0]] =~= Seq::<PostEntry>::empty().push(rest[0]));
        assert(sort_fold(acc, rest).to_multiset() =~= acc.to_multiset().add(rest.to_multiset()));
    }
}

/// Sorting permutes the collection: no entry is lost or duplicated.
pub proof fn lemma_sort_permutes(s: Seq<PostEntry>)
    ensures
        sort_by_date_desc(s).to_multiset() == s.to_multiset(),
{
    broadcast use vstd::multiset::group_multiset_axioms;

    lemma_sort_fold_multiset(Seq::empty(), s);
    broadcast use vstd::seq_lib::group_to_multiset_ensures;

    assert(Seq::<PostEntry>::empty().to_multiset().len() == 0);
    assert(Seq::<PostEntry>::empty().to_multiset() =~= vstd::multiset::Multiset::empty());
    assert(sort_by_date_desc(s).to_multiset() =~= s.to_multiset());
}

} // verus!
