//! Front-matter extraction: the metadata block sits strictly between the
//! first two occurrences of the three-byte delimiter `---`, which may appear
//! anywhere in the text, including mid-line; the body is everything after the
//! second occurrence, skipping the delimiter itself.
use crate::lit::{delim, delim_vec};
use crate::text::{find, find_from, lemma_find_from_some, lit_at};
use crate::SSGError;
use vstd::prelude::*;

verus! {

/// The header span `(start, end)` of a document: `start` is the position just
/// past the first delimiter, `end` the position of the second, so the
/// metadata block is `s[start..end]` and the body starts at `end + 3`.
pub open spec fn find_config_spec(s: Seq<u8>) -> Option<(int, int)> {
    match find_from(s, delim(), 0) {
        Some(f) => match find_from(s, delim(), f + 3) {
            Some(g) => Some((f + 3, g)),
            None => None,
        },
        None => None,
    }
}

/// Locate the header span, as the first two non-overlapping occurrences of
/// the delimiter.
pub fn find_config(content: &Vec<u8>) -> (r: Option<(usize, usize)>)
    ensures
        match r {
            Some((hs, he)) => {
                &&& find_config_spec(content@) == Some((hs as int, he as int))
                &&& 3 <= hs <= he
                &&& he + 3 <= content@.len()
            },
            None => find_config_spec(content@) is None,
        },
{
    let d = delim_vec();
    match find(content, &d, 0) {
        Some(f) => {
            let n = content.len();
            proof {
                assert(f + 3 <= n);
            }
            match find(content, &d, f + 3) {
                Some(g) => Some((f + 3, g)),
                None => None,
            }
        },
        None => None,
    }
}

/// Split a document into its metadata block and its body.
///
/// Fails with `MalformedDocument` exactly when the text holds fewer than two
/// delimiter occurrences.
pub fn split_document(content: &Vec<u8>) -> (r: Result<(Vec<u8>, Vec<u8>), SSGError>)
    ensures
        match r {
            Ok((header, body)) => {
                &&& find_config_spec(content@) matches Some((hs, he))
                    && header@ == content@.subrange(hs, he)
                    && body@ == content@.subrange(he + 3, content@.len() as int)
            },
            Err(e) => e == SSGError::MalformedDocument && find_config_spec(content@) is None,
        },
{
    match find_config(content) {
        Some((hs, he)) => {
            let n = content.len();
            proof {
                assert(he + 3 <= n);
            }
            let header = vstd::slice::slice_to_vec(
                vstd::slice::slice_subrange(content.as_slice(), hs, he),
            );
            let body = vstd::slice::slice_to_vec(
                vstd::slice::slice_subrange(content.as_slice(), he + 3, content.len()),
            );
            Ok((header, body))
        },
        None => Err(SSGError::MalformedDocument),
    }
}

/// The prefix before the first delimiter, the delimiter, the header block,
/// the delimiter again, and the body cover the original text exactly once
/// each: extraction loses and duplicates nothing.
pub proof fn lemma_split_reconstructs(s: Seq<u8>, hs: int, he: int)
    requires
        find_config_spec(s) == Some((hs, he)),
    ensures
        3 <= hs <= he,
        he + 3 <= s.len(),
        s == s.subrange(0, hs - 3) + delim() + s.subrange(hs, he) + delim() + s.subrange(
            he + 3,
            s.len() as int,
        ),
{
    let f = find_from(s, delim(), 0)->Some_0;
    lemma_find_from_some(s, delim(), 0, f);
    let g = find_from(s, delim(), f + 3)->Some_0;
    lemma_find_from_some(s, delim(), f + 3, g);
    assert(hs == f + 3 && he == g);
    assert(s.subrange(f, f + 3) == delim());
    assert(s.subrange(g, g + 3) == delim());
    assert forall|j: int| 0 <= j < s.len() implies (s.subrange(0, hs - 3) + delim()
        + s.subrange(hs, he) + delim() + s.subrange(he + 3, s.len() as int))[j] == s[j] by {
        if hs - 3 <= j < hs {
            assert(delim()[j - (hs - 3)] == s.subrange(f, f + 3)[j - f]);
        } else if he <= j < he + 3 {
            assert(delim()[j - he] == s.subrange(g, g + 3)[j - g]);
        }
    }
    assert(s =~= s.subrange(0, hs - 3) + delim() + s.subrange(hs, he) + delim() + s.subrange(
        he + 3,
        s.len() as int,
    ));
}

} // verus!
