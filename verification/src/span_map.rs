//! The interval map that holds the spans of a line.
//!
//! The map is `rangemap::RangeMap`, keyed by byte offsets. Its values are
//! indices into a table of attributes, so that the map compares plain
//! integers when it merges neighbouring ranges.

use rangemap::RangeMap;
use vstd::prelude::*;

verus! {

/// `rangemap::RangeMap`, the interval map of the crate `rangemap`. Nothing
/// inside it is seen here; what it holds is told by [`span_points`].
#[verifier::external_type_specification]
#[verifier::external_body]
#[verifier::reject_recursive_types(K)]
#[verifier::reject_recursive_types(V)]
pub struct ExRangeMap<K, V>(RangeMap<K, V>);

/// What a map holds, offset by offset: the value stored for every offset
/// that some range of the map covers.
pub uninterp spec fn span_points(m: RangeMap<usize, usize>) -> Map<int, usize>;

/// A stored range with its value: `start`, `end` (exclusive) and the value.
pub type Span = (usize, usize, usize);

/// The points of a map that covers no offset.
pub open spec fn no_points() -> Map<int, usize> {
    Map::empty()
}

/// The points `p` with the offsets from `start` up to `end` set to `value`.
pub open spec fn points_insert(p: Map<int, usize>, start: int, end: int, value: usize) -> Map<
    int,
    usize,
> {
    Map::new(
        |k: int| (start <= k < end) || p.dom().contains(k),
        |k: int|
            if start <= k < end {
                value
            } else {
                p[k]
            },
    )
}

/// The points `p` without the offsets from `start` up to `end`.
pub open spec fn points_remove(p: Map<int, usize>, start: int, end: int) -> Map<int, usize> {
    Map::new(|k: int| p.dom().contains(k) && !(start <= k < end), |k: int| p[k])
}

/// Whether `spans` lists the points `p` as ranges, the way the map stores
/// them: the ranges are not empty, come in rising order without overlap,
/// cover exactly the offsets of `p` with the values of `p`, and two ranges
/// that touch hold different values. An entry is `(start, end, value)`, the
/// end exclusive.
pub open spec fn is_span_list<V>(spans: Seq<(int, int, V)>, p: Map<int, V>) -> bool {
    &&& forall|i: int| 0 <= i < spans.len() ==> (#[trigger] spans[i]).0 < spans[i].1
    &&& forall|i: int, j: int|
        0 <= i < j < spans.len() ==> (#[trigger] spans[i]).1 <= (#[trigger] spans[j]).0
    &&& forall|i: int, k: int|
        0 <= i < spans.len() && (#[trigger] spans[i]).0 <= k < spans[i].1 ==> #[trigger] p.dom().contains(
            k,
        ) && p[k] == spans[i].2
    &&& forall|k: int| #[trigger]
        p.dom().contains(k) ==> exists|i: int|
            0 <= i < spans.len() && (#[trigger] spans[i]).0 <= k < spans[i].1
    &&& forall|i: int|
        0 <= i < spans.len() - 1 && (#[trigger] spans[i]).1 == spans[i + 1].0 ==> spans[i].2
            != spans[i + 1].2
}

/// The entries of a map as mathematical values.
pub open spec fn span_values(spans: Seq<Span>) -> Seq<(int, int, usize)> {
    spans.map_values(|s: Span| (s.0 as int, s.1 as int, s.2))
}

/// `RangeMap::new`: the new map covers no offset.
#[verifier::external_body]
pub(crate) fn span_map_new() -> (m: RangeMap<usize, usize>)
    ensures
        span_points(m) == no_points(),
{
    RangeMap::new()
}

/// `RangeMap::insert`: afterwards every offset of `start..end` holds
/// `value`, and every other offset holds what it held before. The range must
/// not be empty: the map panics on an empty range.
#[verifier::external_body]
pub(crate) fn span_map_insert(m: &mut RangeMap<usize, usize>, start: usize, end: usize, value: usize)
    requires
        start < end,
    ensures
        span_points(*final(m)) == points_insert(
            span_points(*old(m)),
            start as int,
            end as int,
            value,
        ),
{
    m.insert(start..end, value)
}

/// `RangeMap::remove`: afterwards no offset of `start..end` is covered, and
/// every other offset holds what it held before. The range must not be
/// empty: the map panics on an empty range.
#[verifier::external_body]
pub(crate) fn span_map_remove(m: &mut RangeMap<usize, usize>, start: usize, end: usize)
    requires
        start < end,
    ensures
        span_points(*final(m)) == points_remove(span_points(*old(m)), start as int, end as int),
{
    m.remove(start..end)
}

/// `RangeMap::get`: the value of the range that covers `key`, if one does.
#[verifier::external_body]
pub(crate) fn span_map_get(m: &RangeMap<usize, usize>, key: usize) -> (value: Option<usize>)
    ensures
        value == (if span_points(*m).dom().contains(key as int) {
            Some(span_points(*m)[key as int])
        } else {
            None
        }),
{
    m.get(&key).copied()
}

/// `RangeMap::clear`: afterwards the map covers no offset.
#[verifier::external_body]
pub(crate) fn span_map_clear(m: &mut RangeMap<usize, usize>)
    ensures
        span_points(*final(m)) == no_points(),
{
    m.clear()
}

/// `RangeMap::iter`: the stored ranges with their values, in rising order.
/// The map keeps ranges merged, so two ranges that touch differ in value.
#[verifier::external_body]
pub(crate) fn span_map_entries(m: &RangeMap<usize, usize>) -> (spans: Vec<Span>)
    ensures
        is_span_list(span_values(spans@), span_points(*m)),
{
    let mut spans = Vec::new();
    for (range, value) in m.iter() {
        spans.push((range.start, range.end, *value));
    }
    spans
}

/// `RangeMap::clone`: the copy holds the same values at the same offsets.
#[verifier::external_body]
pub(crate) fn span_map_clone(m: &RangeMap<usize, usize>) -> (copy: RangeMap<usize, usize>)
    ensures
        span_points(copy) == span_points(*m),
{
    m.clone()
}

} // verus!
