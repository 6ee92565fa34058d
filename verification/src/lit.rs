//! The fixed byte sequences that the pipeline matches and emits.
use vstd::prelude::*;

verus! {

/// Bytes of `---`.
pub open spec fn delim() -> Seq<u8> {
    seq![45u8, 45u8, 45u8]
}

pub fn delim_vec() -> (r: Vec<u8>)
    ensures
        r@ == delim(),
{
    let a: [u8; 3] = [45, 45, 45];
    let v = vstd::slice::slice_to_vec(a.as_slice());
    proof {
        assert(v@ =~= delim());
    }
    v
}

/// Bytes of `<img data-inline="`.
pub open spec fn img_open() -> Seq<u8> {
    seq![60u8, 105u8, 109u8, 103u8, 32u8, 100u8, 97u8, 116u8, 97u8, 45u8, 105u8, 110u8, 108u8, 105u8, 110u8, 101u8, 61u8, 34u8]
}

pub fn img_open_vec() -> (r: Vec<u8>)
    ensures
        r@ == img_open(),
{
    let a: [u8; 18] = [60, 105, 109, 103, 32, 100, 97, 116, 97, 45, 105, 110, 108, 105, 110, 101, 61, 34];
    let v = vstd::slice::slice_to_vec(a.as_slice());
    proof {
        assert(v@ =~= img_open());
    }
    v
}

/// Bytes of `true" src="`.
pub open spec fn true_tail() -> Seq<u8> {
    seq![116u8, 114u8, 117u8, 101u8, 34u8, 32u8, 115u8, 114u8, 99u8, 61u8, 34u8]
}

pub fn true_tail_vec() -> (r: Vec<u8>)
    ensures
        r@ == true_tail(),
{
    let a: [u8; 11] = [116, 114, 117, 101, 34, 32, 115, 114, 99, 61, 34];
    let v = vstd::slice::slice_to_vec(a.as_slice());
    proof {
        assert(v@ =~= true_tail());
    }
    v
}

/// Bytes of `false" src="`.
pub open spec fn false_tail() -> Seq<u8> {
    seq![102u8, 97u8, 108u8, 115u8, 101u8, 34u8, 32u8, 115u8, 114u8, 99u8, 61u8, 34u8]
}

pub fn false_tail_vec() -> (r: Vec<u8>)
    ensures
        r@ == false_tail(),
{
    let a: [u8; 12] = [102, 97, 108, 115, 101, 34, 32, 115, 114, 99, 61, 34];
    let v = vstd::slice::slice_to_vec(a.as_slice());
    proof {
        assert(v@ =~= false_tail());
    }
    v
}

/// Bytes of `"`.
pub open spec fn quote() -> Seq<u8> {
    seq![34u8]
}

pub fn quote_vec() -> (r: Vec<u8>)
    ensures
        r@ == quote(),
{
    let a: [u8; 1] = [34];
    let v = vstd::slice::slice_to_vec(a.as_slice());
    proof {
        assert(v@ =~= quote());
    }
    v
}

/// Bytes of `/>`.
pub open spec fn tag_close() -> Seq<u8> {
    seq![47u8, 62u8]
}

pub fn tag_close_vec() -> (r: Vec<u8>)
    ensures
        r@ == tag_close(),
{
    let a: [u8; 2] = [47, 62];
    let v = vstd::slice::slice_to_vec(a.as_slice());
    proof {
        assert(v@ =~= tag_close());
    }
    v
}

/// Bytes of `<svg`.
pub open spec fn svg_open() -> Seq<u8> {
    seq![60u8, 115u8, 118u8, 103u8]
}

pub fn svg_open_vec() -> (r: Vec<u8>)
    ensures
        r@ == svg_open(),
{
    let a: [u8; 4] = [60, 115, 118, 103];
    let v = vstd::slice::slice_to_vec(a.as_slice());
    proof {
        assert(v@ =~= svg_open());
    }
    v
}

/// Bytes of `</svg>`.
pub open spec fn svg_close() -> Seq<u8> {
    seq![60u8, 47u8, 115u8, 118u8, 103u8, 62u8]
}

pub fn svg_close_vec() -> (r: Vec<u8>)
    ensures
        r@ == svg_close(),
{
    let a: [u8; 6] = [60, 47, 115, 118, 103, 62];
    let v = vstd::slice::slice_to_vec(a.as_slice());
    proof {
        assert(v@ =~= svg_close());
    }
    v
}

/// Bytes of `id="`.
pub open spec fn id_open() -> Seq<u8> {
    seq![105u8, 100u8, 61u8, 34u8]
}

pub fn id_open_vec() -> (r: Vec<u8>)
    ensures
        r@ == id_open(),
{
    let a: [u8; 4] = [105, 100, 61, 34];
    let v = vstd::slice::slice_to_vec(a.as_slice());
    proof {
        assert(v@ =~= id_open());
    }
    v
}

/// Bytes of `$`.
pub open spec fn dollar() -> Seq<u8> {
    seq![36u8]
}

pub fn dollar_vec() -> (r: Vec<u8>)
    ensures
        r@ == dollar(),
{
    let a: [u8; 1] = [36];
    let v = vstd::slice::slice_to_vec(a.as_slice());
    proof {
        assert(v@ =~= dollar());
    }
    v
}

/// Bytes of `$$`.
pub open spec fn double_dollar() -> Seq<u8> {
    seq![36u8, 36u8]
}

pub fn double_dollar_vec() -> (r: Vec<u8>)
    ensures
        r@ == double_dollar(),
{
    let a: [u8; 2] = [36, 36];
    let v = vstd::slice::slice_to_vec(a.as_slice());
    proof {
        assert(v@ =~= double_dollar());
    }
    v
}

/// Bytes of `en`.
pub open spec fn lang_en() -> Seq<u8> {
    seq![101u8, 110u8]
}

pub fn lang_en_vec() -> (r: Vec<u8>)
    ensures
        r@ == lang_en(),
{
    let a: [u8; 2] = [101, 110];
    let v = vstd::slice::slice_to_vec(a.as_slice());
    proof {
        assert(v@ =~= lang_en());
    }
    v
}

/// Bytes of `top`.
pub open spec fn tpl_top() -> Seq<u8> {
    seq![116u8, 111u8, 112u8]
}

pub fn tpl_top_vec() -> (r: Vec<u8>)
    ensures
        r@ == tpl_top(),
{
    let a: [u8; 3] = [116, 111, 112];
    let v = vstd::slice::slice_to_vec(a.as_slice());
    proof {
        assert(v@ =~= tpl_top());
    }
    v
}

/// Bytes of `home`.
pub open spec fn tpl_home() -> Seq<u8> {
    seq![104u8, 111u8, 109u8, 101u8]
}

pub fn tpl_home_vec() -> (r: Vec<u8>)
    ensures
        r@ == tpl_home(),
{
    let a: [u8; 4] = [104, 111, 109, 101];
    let v = vstd::slice::slice_to_vec(a.as_slice());
    proof {
        assert(v@ =~= tpl_home());
    }
    v
}

/// Bytes of `default`.
pub open spec fn tpl_default() -> Seq<u8> {
    seq![100u8, 101u8, 102u8, 97u8, 117u8, 108u8, 116u8]
}

pub fn tpl_default_vec() -> (r: Vec<u8>)
    ensures
        r@ == tpl_default(),
{
    let a: [u8; 7] = [100, 101, 102, 97, 117, 108, 116];
    let v = vstd::slice::slice_to_vec(a.as_slice());
    proof {
        assert(v@ =~= tpl_default());
    }
    v
}

/// Bytes of `feed`.
pub open spec fn cmd_feed() -> Seq<u8> {
    seq![102u8, 101u8, 101u8, 100u8]
}

pub fn cmd_feed_vec() -> (r: Vec<u8>)
    ensures
        r@ == cmd_feed(),
{
    let a: [u8; 4] = [102, 101, 101, 100];
    let v = vstd::slice::slice_to_vec(a.as_slice());
    proof {
        assert(v@ =~= cmd_feed());
    }
    v
}

/// Bytes of `index`.
pub open spec fn cmd_index() -> Seq<u8> {
    seq![105u8, 110u8, 100u8, 101u8, 120u8]
}

pub fn cmd_index_vec() -> (r: Vec<u8>)
    ensures
        r@ == cmd_index(),
{
    let a: [u8; 5] = [105, 110, 100, 101, 120];
    let v = vstd::slice::slice_to_vec(a.as_slice());
    proof {
        assert(v@ =~= cmd_index());
    }
    v
}

/// Bytes of `page`.
pub open spec fn cmd_page() -> Seq<u8> {
    seq![112u8, 97u8, 103u8, 101u8]
}

pub fn cmd_page_vec() -> (r: Vec<u8>)
    ensures
        r@ == cmd_page(),
{
    let a: [u8; 4] = [112, 97, 103, 101];
    let v = vstd::slice::slice_to_vec(a.as_slice());
    proof {
        assert(v@ =~= cmd_page());
    }
    v
}

/// Bytes of `/posts/`.
pub open spec fn posts_seg() -> Seq<u8> {
    seq![47u8, 112u8, 111u8, 115u8, 116u8, 115u8, 47u8]
}

pub fn posts_seg_vec() -> (r: Vec<u8>)
    ensures
        r@ == posts_seg(),
{
    let a: [u8; 7] = [47, 112, 111, 115, 116, 115, 47];
    let v = vstd::slice::slice_to_vec(a.as_slice());
    proof {
        assert(v@ =~= posts_seg());
    }
    v
}

/// Bytes of `private/content/posts/`.
pub open spec fn posts_root() -> Seq<u8> {
    seq![112u8, 114u8, 105u8, 118u8, 97u8, 116u8, 101u8, 47u8, 99u8, 111u8, 110u8, 116u8, 101u8, 110u8, 116u8, 47u8, 112u8, 111u8, 115u8, 116u8, 115u8, 47u8]
}

pub fn posts_root_vec() -> (r: Vec<u8>)
    ensures
        r@ == posts_root(),
{
    let a: [u8; 22] = [112, 114, 105, 118, 97, 116, 101, 47, 99, 111, 110, 116, 101, 110, 116, 47, 112, 111, 115, 116, 115, 47];
    let v = vstd::slice::slice_to_vec(a.as_slice());
    proof {
        assert(v@ =~= posts_root());
    }
    v
}

/// Bytes of `private/static`.
pub open spec fn static_root() -> Seq<u8> {
    seq![112u8, 114u8, 105u8, 118u8, 97u8, 116u8, 101u8, 47u8, 115u8, 116u8, 97u8, 116u8, 105u8, 99u8]
}

pub fn static_root_vec() -> (r: Vec<u8>)
    ensures
        r@ == static_root(),
{
    let a: [u8; 14] = [112, 114, 105, 118, 97, 116, 101, 47, 115, 116, 97, 116, 105, 99];
    let v = vstd::slice::slice_to_vec(a.as_slice());
    proof {
        assert(v@ =~= static_root());
    }
    v
}

/// Bytes of `<fieldset class="year"><legend>`.
pub open spec fn year_open() -> Seq<u8> {
    seq![60u8, 102u8, 105u8, 101u8, 108u8, 100u8, 115u8, 101u8, 116u8, 32u8, 99u8, 108u8, 97u8, 115u8, 115u8, 61u8, 34u8, 121u8, 101u8, 97u8, 114u8, 34u8, 62u8, 60u8, 108u8, 101u8, 103u8, 101u8, 110u8, 100u8, 62u8]
}

pub fn year_open_vec() -> (r: Vec<u8>)
    ensures
        r@ == year_open(),
{
    let a: [u8; 31] = [60, 102, 105, 101, 108, 100, 115, 101, 116, 32, 99, 108, 97, 115, 115, 61, 34, 121, 101, 97, 114, 34, 62, 60, 108, 101, 103, 101, 110, 100, 62];
    let v = vstd::slice::slice_to_vec(a.as_slice());
    proof {
        assert(v@ =~= year_open());
    }
    v
}

/// Bytes of `</legend>`.
pub open spec fn legend_close() -> Seq<u8> {
    seq![60u8, 47u8, 108u8, 101u8, 103u8, 101u8, 110u8, 100u8, 62u8]
}

pub fn legend_close_vec() -> (r: Vec<u8>)
    ensures
        r@ == legend_close(),
{
    let a: [u8; 9] = [60, 47, 108, 101, 103, 101, 110, 100, 62];
    let v = vstd::slice::slice_to_vec(a.as_slice());
    proof {
        assert(v@ =~= legend_close());
    }
    v
}

/// Bytes of `</fieldset>`.
pub open spec fn year_close() -> Seq<u8> {
    seq![60u8, 47u8, 102u8, 105u8, 101u8, 108u8, 100u8, 115u8, 101u8, 116u8, 62u8]
}

pub fn year_close_vec() -> (r: Vec<u8>)
    ensures
        r@ == year_close(),
{
    let a: [u8; 11] = [60, 47, 102, 105, 101, 108, 100, 115, 101, 116, 62];
    let v = vstd::slice::slice_to_vec(a.as_slice());
    proof {
        assert(v@ =~= year_close());
    }
    v
}

/// Bytes of `<a class="post" href="/posts/`.
pub open spec fn item_open() -> Seq<u8> {
    seq![60u8, 97u8, 32u8, 99u8, 108u8, 97u8, 115u8, 115u8, 61u8, 34u8, 112u8, 111u8, 115u8, 116u8, 34u8, 32u8, 104u8, 114u8, 101u8, 102u8, 61u8, 34u8, 47u8, 112u8, 111u8, 115u8, 116u8, 115u8, 47u8]
}

pub fn item_open_vec() -> (r: Vec<u8>)
    ensures
        r@ == item_open(),
{
    let a: [u8; 29] = [60, 97, 32, 99, 108, 97, 115, 115, 61, 34, 112, 111, 115, 116, 34, 32, 104, 114, 101, 102, 61, 34, 47, 112, 111, 115, 116, 115, 47];
    let v = vstd::slice::slice_to_vec(a.as_slice());
    proof {
        assert(v@ =~= item_open());
    }
    v
}

/// Bytes of `">`.
pub open spec fn attr_close() -> Seq<u8> {
    seq![34u8, 62u8]
}

pub fn attr_close_vec() -> (r: Vec<u8>)
    ensures
        r@ == attr_close(),
{
    let a: [u8; 2] = [34, 62];
    let v = vstd::slice::slice_to_vec(a.as_slice());
    proof {
        assert(v@ =~= attr_close());
    }
    v
}

/// Bytes of `<span class="title">`.
pub open spec fn title_open() -> Seq<u8> {
    seq![60u8, 115u8, 112u8, 97u8, 110u8, 32u8, 99u8, 108u8, 97u8, 115u8, 115u8, 61u8, 34u8, 116u8, 105u8, 116u8, 108u8, 101u8, 34u8, 62u8]
}

pub fn title_open_vec() -> (r: Vec<u8>)
    ensures
        r@ == title_open(),
{
    let a: [u8; 20] = [60, 115, 112, 97, 110, 32, 99, 108, 97, 115, 115, 61, 34, 116, 105, 116, 108, 101, 34, 62];
    let v = vstd::slice::slice_to_vec(a.as_slice());
    proof {
        assert(v@ =~= title_open());
    }
    v
}

/// Bytes of `</span>`.
pub open spec fn span_close() -> Seq<u8> {
    seq![60u8, 47u8, 115u8, 112u8, 97u8, 110u8, 62u8]
}

pub fn span_close_vec() -> (r: Vec<u8>)
    ensures
        r@ == span_close(),
{
    let a: [u8; 7] = [60, 47, 115, 112, 97, 110, 62];
    let v = vstd::slice::slice_to_vec(a.as_slice());
    proof {
        assert(v@ =~= span_close());
    }
    v
}

/// Bytes of `<span class="date">`.
pub open spec fn date_open() -> Seq<u8> {
    seq![60u8, 115u8, 112u8, 97u8, 110u8, 32u8, 99u8, 108u8, 97u8, 115u8, 115u8, 61u8, 34u8, 100u8, 97u8, 116u8, 101u8, 34u8, 62u8]
}

pub fn date_open_vec() -> (r: Vec<u8>)
    ensures
        r@ == date_open(),
{
    let a: [u8; 19] = [60, 115, 112, 97, 110, 32, 99, 108, 97, 115, 115, 61, 34, 100, 97, 116, 101, 34, 62];
    let v = vstd::slice::slice_to_vec(a.as_slice());
    proof {
        assert(v@ =~= date_open());
    }
    v
}

/// Bytes of `</a>`.
pub open spec fn item_close() -> Seq<u8> {
    seq![60u8, 47u8, 97u8, 62u8]
}

pub fn item_close_vec() -> (r: Vec<u8>)
    ensures
        r@ == item_close(),
{
    let a: [u8; 4] = [60, 47, 97, 62];
    let v = vstd::slice::slice_to_vec(a.as_slice());
    proof {
        assert(v@ =~= item_close());
    }
    v
}

} // verus!
