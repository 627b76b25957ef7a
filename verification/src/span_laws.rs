//! What holds of every list of spans, and of the lists on both sides of a split.

use vstd::prelude::*;
use crate::attrs::AttrsView;
use crate::attrs_list::AttrsListView;
use crate::span_map::is_span_list;

verus! {

/// Whether the offsets from `start` up to `end` form a run of `p` that
/// cannot be extended: all of them hold `value`, and neither the offset in
/// front of `start` nor the offset `end` does.
pub open spec fn is_maximal_run<V>(p: Map<int, V>, start: int, end: int, value: V) -> bool {
    &&& start < end
    &&& forall|k: int| start <= k < end ==> #[trigger] p.dom().contains(k) && p[k] == value
    &&& !(p.dom().contains(start - 1) && p[start - 1] == value)
    &&& !(p.dom().contains(end) && p[end] == value)
}

/// No offset lies in two spans of a list: two spans that share an offset
/// are the same entry.
pub proof fn spans_do_not_overlap<V>(spans: Seq<(int, int, V)>, p: Map<int, V>, i: int, j: int, k: int)
    requires
        is_span_list(spans, p),
        0 <= i < spans.len(),
        0 <= j < spans.len(),
        spans[i].0 <= k < spans[i].1,
        spans[j].0 <= k < spans[j].1,
    ensures
        i == j,
{
    if i < j {
        assert(spans[i].1 <= spans[j].0);
    } else if j < i {
        assert(spans[j].1 <= spans[i].0);
    }
}

/// Every offset is covered by one span of the list or by none, and the
/// lookup by offset is total: a covered offset has the value of its span.
pub proof fn every_offset_has_one_value<V>(spans: Seq<(int, int, V)>, p: Map<int, V>, k: int)
    requires
        is_span_list(spans, p),
    ensures
        p.dom().contains(k) <==> exists|i: int|
            0 <= i < spans.len() && (#[trigger] spans[i]).0 <= k < spans[i].1,
        forall|i: int|
            0 <= i < spans.len() && (#[trigger] spans[i]).0 <= k < spans[i].1 ==> p[k] == spans[i].2,
{
    if exists|i: int| 0 <= i < spans.len() && (#[trigger] spans[i]).0 <= k < spans[i].1 {
        let i = choose|i: int| 0 <= i < spans.len() && (#[trigger] spans[i]).0 <= k < spans[i].1;
        assert(p.dom().contains(k));
    }
    assert forall|i: int|
        0 <= i < spans.len() && (#[trigger] spans[i]).0 <= k < spans[i].1 implies p[k]
        == spans[i].2 by {
        assert(p.dom().contains(k));
    }
}

/// Two spans of a list of which the first ends where the second starts
/// are neighbours in the list.
proof fn touching_spans_are_neighbours<V>(spans: Seq<(int, int, V)>, p: Map<int, V>, i: int, j: int)
    requires
        is_span_list(spans, p),
        0 <= i < spans.len(),
        0 <= j < spans.len(),
        spans[i].1 == spans[j].0,
    ensures
        j == i + 1,
{
    assert(spans[i].0 < spans[i].1);
    assert(spans[j].0 < spans[j].1);
    if j <= i {
        if j < i {
            assert(spans[j].1 <= spans[i].0);
        }
    } else if j > i + 1 {
        assert(spans[i].1 <= spans[i + 1].0);
        assert(spans[i + 1].0 < spans[i + 1].1);
        assert(spans[i + 1].1 <= spans[j].0);
    }
}

/// Every span of a list is a run that cannot be extended.
pub proof fn span_is_maximal_run<V>(spans: Seq<(int, int, V)>, p: Map<int, V>, i: int)
    requires
        is_span_list(spans, p),
        0 <= i < spans.len(),
    ensures
        is_maximal_run(p, spans[i].0, spans[i].1, spans[i].2),
{
    let (start, end, value) = spans[i];
    assert forall|k: int| start <= k < end implies #[trigger] p.dom().contains(k) && p[k]
        == value by {
        assert(spans[i].0 <= k < spans[i].1);
        assert(p.dom().contains(k));
    }
    if p.dom().contains(start - 1) {
        let j = choose|j: int| 0 <= j < spans.len() && (#[trigger] spans[j]).0 <= start - 1 < spans[j].1;
        assert(p.dom().contains(start - 1));
        assert(p[start - 1] == spans[j].2);
        if j == i {
        } else if j > i {
            assert(spans[i].1 <= spans[j].0);
        } else {
            assert(spans[j].1 <= spans[i].0);
            touching_spans_are_neighbours(spans, p, j, i);
        }
    }
    if p.dom().contains(end) {
        let j = choose|j: int| 0 <= j < spans.len() && (#[trigger] spans[j]).0 <= end < spans[j].1;
        assert(p.dom().contains(end));
        assert(p[end] == spans[j].2);
        if j == i {
        } else if j < i {
            assert(spans[j].1 <= spans[i].0);
        } else {
            assert(spans[i].1 <= spans[j].0);
            touching_spans_are_neighbours(spans, p, i, j);
        }
    }
}

/// Every run that cannot be extended is a span of the list.
pub proof fn maximal_run_is_span<V>(
    spans: Seq<(int, int, V)>,
    p: Map<int, V>,
    start: int,
    end: int,
    value: V,
) -> (i: int)
    requires
        is_span_list(spans, p),
        is_maximal_run(p, start, end, value),
    ensures
        0 <= i < spans.len(),
        spans[i] == (start, end, value),
{
    assert(p.dom().contains(start) && p[start] == value);
    let i = choose|i: int| 0 <= i < spans.len() && (#[trigger] spans[i]).0 <= start < spans[i].1;
    assert(p.dom().contains(start));
    assert(p[start] == spans[i].2);
    span_is_maximal_run(spans, p, i);
    if spans[i].0 < start {
        assert(spans[i].0 <= start - 1 < spans[i].1);
        assert(p.dom().contains(start - 1));
    }
    if spans[i].1 < end {
        assert(p.dom().contains(spans[i].1) && p[spans[i].1] == value);
    }
    if end < spans[i].1 {
        assert(spans[i].0 <= end < spans[i].1);
        assert(p.dom().contains(end));
    }
    i
}

/// In a list of spans, a span in front of another starts in front of it.
proof fn spans_start_in_order<V>(spans: Seq<(int, int, V)>, p: Map<int, V>, i: int, j: int)
    requires
        is_span_list(spans, p),
        0 <= i < j < spans.len(),
    ensures
        spans[i].0 < spans[j].0,
{
    assert(spans[i].0 < spans[i].1);
    assert(spans[i].1 <= spans[j].0);
}

/// Span `i` of one list of the spans of `p` is a span of any other such
/// list, at index `i` or behind it.
proof fn span_has_its_match<V>(a: Seq<(int, int, V)>, b: Seq<(int, int, V)>, p: Map<int, V>, i: int) -> (j:
    int)
    requires
        is_span_list(a, p),
        is_span_list(b, p),
        0 <= i < a.len(),
    ensures
        i <= j < b.len(),
        b[j] == a[i],
    decreases i,
{
    span_is_maximal_run(a, p, i);
    let j = maximal_run_is_span(b, p, a[i].0, a[i].1, a[i].2);
    if i > 0 {
        let before = span_has_its_match(a, b, p, i - 1);
        spans_start_in_order(a, p, i - 1, i);
        if j < before {
            spans_start_in_order(b, p, j, before);
        }
    }
    j
}

/// The spans of points can be listed in one way only.
pub proof fn span_list_is_unique<V>(a: Seq<(int, int, V)>, b: Seq<(int, int, V)>, p: Map<int, V>)
    requires
        is_span_list(a, p),
        is_span_list(b, p),
    ensures
        a == b,
{
    assert forall|i: int| 0 <= i < a.len() implies i < b.len() && a[i] == b[i] by {
        let j = span_has_its_match(a, b, p, i);
        let back = span_has_its_match(b, a, p, j);
        if back != i {
            if back < i {
                spans_start_in_order(a, p, back, i);
            } else {
                spans_start_in_order(a, p, i, back);
            }
        }
    }
    if a.len() > 0 {
        let j = span_has_its_match(a, b, p, a.len() - 1);
    }
    if b.len() > 0 {
        let i = span_has_its_match(b, a, p, b.len() - 1);
    }
    assert(a =~= b);
}

/// Points with the same list of spans are the same points.
pub proof fn span_list_fixes_points<V>(spans: Seq<(int, int, V)>, p: Map<int, V>, q: Map<int, V>)
    requires
        is_span_list(spans, p),
        is_span_list(spans, q),
    ensures
        p == q,
{
    assert forall|k: int| p.dom().contains(k) implies q.dom().contains(k) && q[k] == p[k] by {
        let i = choose|i: int| 0 <= i < spans.len() && (#[trigger] spans[i]).0 <= k < spans[i].1;
        assert(q.dom().contains(k));
        assert(p.dom().contains(k));
    }
    assert forall|k: int| q.dom().contains(k) implies p.dom().contains(k) by {
        let i = choose|i: int| 0 <= i < spans.len() && (#[trigger] spans[i]).0 <= k < spans[i].1;
        assert(p.dom().contains(k));
    }
    assert(p =~= q);
}

/// A split is exact. Let `whole` list the spans of a line, and `left` and
/// `right` those of the two parts of the line split at `at`. A span of
/// `whole` that ends at or before `at` is a span of `left`, unchanged. One
/// that starts at or after `at` is a span of `right`, moved down by `at`,
/// with the same value. One that crosses `at` is cut: its part in front of
/// `at` is a span of `left`, the rest is the span of `right` that starts at
/// offset 0. No span of `left` reaches beyond `at`, and none of `right`
/// starts below offset 0.
pub proof fn split_is_exact(
    list: AttrsListView,
    at: int,
    whole: Seq<(int, int, AttrsView)>,
    left: Seq<(int, int, AttrsView)>,
    right: Seq<(int, int, AttrsView)>,
)
    requires
        is_span_list(whole, list.spans),
        is_span_list(left, list.head(at).spans),
        is_span_list(right, list.tail(at).spans),
    ensures
        forall|i: int|
            0 <= i < whole.len() && (#[trigger] whole[i]).1 <= at ==> left.contains(whole[i]),
        forall|i: int|
            0 <= i < whole.len() && (#[trigger] whole[i]).0 >= at && whole[i].0 >= 0
                ==> right.contains((whole[i].0 - at, whole[i].1 - at, whole[i].2)),
        forall|i: int|
            0 <= i < whole.len() && (#[trigger] whole[i]).0 < at < whole[i].1 ==> left.contains(
                (whole[i].0, at, whole[i].2),
            ),
        forall|i: int|
            0 <= i < whole.len() && (#[trigger] whole[i]).0 < at < whole[i].1 && at >= 0
                ==> right.contains((0int, whole[i].1 - at, whole[i].2)),
        forall|j: int| 0 <= j < left.len() ==> (#[trigger] left[j]).1 <= at,
        forall|j: int| 0 <= j < right.len() ==> (#[trigger] right[j]).0 >= 0,
{
    let p = list.spans;
    let head = list.head(at).spans;
    let tail = list.tail(at).spans;
    assert forall|i: int| 0 <= i < whole.len() && (#[trigger] whole[i]).1 <= at implies left.contains(
        whole[i],
    ) by {
        span_is_maximal_run(whole, p, i);
        let (s, e, v) = whole[i];
        assert forall|k: int| s <= k < e implies #[trigger] head.dom().contains(k) && head[k]
            == v by {
            assert(p.dom().contains(k));
        }
        let j = maximal_run_is_span(left, head, s, e, v);
    }
    assert forall|i: int|
        0 <= i < whole.len() && (#[trigger] whole[i]).0 >= at && whole[i].0 >= 0 implies right.contains(
        (whole[i].0 - at, whole[i].1 - at, whole[i].2),
    ) by {
        span_is_maximal_run(whole, p, i);
        let (s, e, v) = whole[i];
        assert forall|k: int| s - at <= k < e - at implies #[trigger] tail.dom().contains(k)
            && tail[k] == v by {
            assert(p.dom().contains(k + at));
        }
        let j = maximal_run_is_span(right, tail, s - at, e - at, v);
    }
    assert forall|i: int|
        0 <= i < whole.len() && (#[trigger] whole[i]).0 < at < whole[i].1 implies left.contains(
        (whole[i].0, at, whole[i].2),
    ) by {
        span_is_maximal_run(whole, p, i);
        let (s, e, v) = whole[i];
        assert forall|k: int| s <= k < at implies #[trigger] head.dom().contains(k) && head[k]
            == v by {
            assert(p.dom().contains(k));
        }
        let j = maximal_run_is_span(left, head, s, at, v);
    }
    assert forall|i: int|
        0 <= i < whole.len() && (#[trigger] whole[i]).0 < at < whole[i].1 && at >= 0 implies right.contains(
        (0int, whole[i].1 - at, whole[i].2),
    ) by {
        span_is_maximal_run(whole, p, i);
        let (s, e, v) = whole[i];
        assert forall|k: int| 0 <= k < e - at implies #[trigger] tail.dom().contains(k) && tail[k]
            == v by {
            assert(p.dom().contains(k + at));
        }
        let j = maximal_run_is_span(right, tail, 0, e - at, v);
    }
    assert forall|j: int| 0 <= j < left.len() implies (#[trigger] left[j]).1 <= at by {
        assert(left[j].0 < left[j].1);
        let k = left[j].1 - 1;
        assert(left[j].0 <= k < left[j].1);
        assert(head.dom().contains(k));
    }
    assert forall|j: int| 0 <= j < right.len() implies (#[trigger] right[j]).0 >= 0 by {
        assert(right[j].0 < right[j].1);
        let k = right[j].0;
        assert(right[j].0 <= k < right[j].1);
        assert(tail.dom().contains(k));
    }
}

} // verus!
