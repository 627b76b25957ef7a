//! Grapheme clusters of the text under a glyph.

use unicode_segmentation::UnicodeSegmentation;
use vstd::prelude::*;
use vstd::string::*;
use vstd::utf8::*;

verus! {

/// The extended grapheme clusters of a text, in order: the byte offset at
/// which each starts, and its length in bytes.
pub uninterp spec fn grapheme_clusters(text: Seq<char>) -> Seq<(usize, usize)>;

/// `UnicodeSegmentation::grapheme_indices`, with extended clusters: the
/// clusters of `text` in order, each as the byte offset at which it starts
/// and its length in bytes. Every cluster is a part of `text`, so none
/// reaches beyond its end.
#[verifier::external_body]
pub(crate) fn grapheme_spans(text: &str) -> (spans: Vec<(usize, usize)>)
    ensures
        spans@ == grapheme_clusters(text@),
        forall|i: int|
            0 <= i < spans@.len() ==> (#[trigger] spans@[i]).0 + spans@[i].1
                <= text.spec_bytes().len(),
{
    let mut spans = Vec::new();
    for (offset, cluster) in text.grapheme_indices(true) {
        spans.push((offset, cluster.len()));
    }
    spans
}

/// The text of a glyph cluster: the part of `text` from byte `start` up to
/// byte `end`, if both are boundaries of characters of the text.
pub open spec fn cluster_text(text: Seq<char>, start: int, end: int) -> Option<Seq<char>> {
    let bytes = encode_utf8(text);
    if 0 <= start <= end <= bytes.len() && is_char_boundary(bytes, start) && is_char_boundary(
        bytes,
        end,
    ) {
        Some(decode_utf8(bytes.subrange(start, end)))
    } else {
        None
    }
}

/// Length in bytes of the text of a glyph cluster; 0 where the range of
/// the glyph is no part of the text.
pub open spec fn cluster_len(text: Seq<char>, start: int, end: int) -> int {
    if cluster_text(text, start, end) is Some {
        end - start
    } else {
        0
    }
}

/// The grapheme clusters of the text of a glyph cluster; none where the
/// range of the glyph is no part of the text.
pub open spec fn cluster_graphemes(text: Seq<char>, start: int, end: int) -> Seq<(usize, usize)> {
    match cluster_text(text, start, end) {
        Some(cluster) => grapheme_clusters(cluster),
        None => Seq::empty(),
    }
}

/// The part of `text` from byte `start` up to byte `end`, if both are
/// boundaries of characters.
pub fn cluster(text: &str, start: usize, end: usize) -> (part: Option<&str>)
    ensures
        match part {
            Some(part) => cluster_text(text@, start as int, end as int) == Some(part@)
                && part.spec_bytes().len() == end - start,
            None => cluster_text(text@, start as int, end as int) is None,
        },
{
    broadcast use group_utf8_lib;

    if start > end || end > text.as_bytes().len() {
        return None;
    }
    if !text.is_char_boundary(start) || !text.is_char_boundary(end) {
        return None;
    }
    let ghost bytes = text.spec_bytes();
    let (head, _tail) = text.split_at(end);
    proof {
        let h = head.spec_bytes();
        assert(valid_utf8(bytes));
        assert(valid_utf8(h));
        if start < end {
            assert(h[start as int] == bytes[start as int]);
            assert(!is_continuation_byte(bytes[start as int]));
            assert(is_char_boundary(h, start as int));
        } else {
            assert(is_char_boundary(h, h.len() as int));
        }
    }
    let (_front, part) = head.split_at(start);
    proof {
        assert(part.spec_bytes() =~= bytes.subrange(start as int, end as int));
        assert(decode_utf8(encode_utf8(part@)) == part@);
    }
    Some(part)
}

/// The grapheme clusters of the text under a glyph that covers the bytes
/// from `start` up to `end`, and the length of that text.
pub fn glyph_graphemes(text: &str, start: usize, end: usize) -> (found: (Vec<(usize, usize)>, usize))
    ensures
        found.0@ == cluster_graphemes(text@, start as int, end as int),
        found.1 == cluster_len(text@, start as int, end as int),
        found.1 == 0 || found.1 == end - start,
        forall|i: int|
            0 <= i < found.0@.len() ==> (#[trigger] found.0@[i]).0 + found.0@[i].1 <= found.1,
{
    match cluster(text, start, end) {
        Some(part) => (grapheme_spans(part), end - start),
        None => (Vec::new(), 0),
    }
}

} // verus!
