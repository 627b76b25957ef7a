//! The attributes of one line of text: defaults, and spans that override them.

use core::ops::Range;
use rangemap::RangeMap;
use vstd::prelude::*;
use crate::attrs::{Attrs, AttrsOwned, AttrsView};
use crate::span_laws::{span_list_fixes_points, span_list_is_unique};
use crate::span_map::{
    is_span_list, span_map_clear, span_map_clone, span_map_entries, span_map_get,
    span_map_insert, span_map_new, span_map_remove, span_points, span_values, Span,
};

verus! {

/// The mathematical value of an [`AttrsList`].
pub struct AttrsListView {
    /// The attributes of every offset that no span covers.
    pub defaults: AttrsView,
    /// The attributes of the offsets that spans cover.
    pub spans: Map<int, AttrsView>,
}

impl AttrsListView {
    /// The attributes in force at `offset`.
    pub open spec fn at(self, offset: int) -> AttrsView {
        if self.spans.dom().contains(offset) {
            self.spans[offset]
        } else {
            self.defaults
        }
    }

    /// The spans with the offsets from `start` up to `end` set to `attrs`.
    pub open spec fn with_span(self, start: int, end: int, attrs: AttrsView) -> AttrsListView {
        AttrsListView {
            defaults: self.defaults,
            spans: Map::new(
                |k: int| (start <= k < end) || self.spans.dom().contains(k),
                |k: int|
                    if start <= k < end {
                        attrs
                    } else {
                        self.spans[k]
                    },
            ),
        }
    }

    /// The part in front of `at`: the spans of the offsets below `at`.
    pub open spec fn head(self, at: int) -> AttrsListView {
        AttrsListView {
            defaults: self.defaults,
            spans: Map::new(|k: int| self.spans.dom().contains(k) && k < at, |k: int| self.spans[k]),
        }
    }

    /// The part from `at` on, with offsets counted from `at`.
    pub open spec fn tail(self, at: int) -> AttrsListView {
        AttrsListView {
            defaults: self.defaults,
            spans: Map::new(
                |k: int| 0 <= k && self.spans.dom().contains(k + at),
                |k: int| self.spans[k + at],
            ),
        }
    }
}

/// The attributes of a line: default attributes, and spans of byte offsets
/// with attributes of their own. Spans do not overlap; neighbouring spans
/// with equal attributes are one span.
pub struct AttrsList {
    defaults: AttrsOwned,
    /// The attribute values that spans refer to, each held once.
    table: Vec<AttrsOwned>,
    /// For each covered offset, the index of its attributes in `table`.
    spans: RangeMap<usize, usize>,
}

/// The values of listed spans: start, end (exclusive) and attributes of each.
pub open spec fn listed_spans(spans: Seq<(Range<usize>, &AttrsOwned)>) -> Seq<(int, int, AttrsView)> {
    spans.map_values(|s: (Range<usize>, &AttrsOwned)| (s.0.start as int, s.0.end as int, s.1@))
}

impl View for AttrsList {
    type V = AttrsListView;

    closed spec fn view(&self) -> AttrsListView {
        AttrsListView {
            defaults: self.defaults@,
            spans: Map::new(
                |k: int| span_points(self.spans).dom().contains(k),
                |k: int| self.table@[span_points(self.spans)[k] as int]@,
            ),
        }
    }
}

impl AttrsList {
    /// The invariant of the list: every offset that a span covers is an
    /// offset that a text can have, every span refers to an entry of the
    /// table, and no two entries of the table hold the same attributes.
    pub closed spec fn wf(self) -> bool {
        &&& forall|k: int| #[trigger]
            span_points(self.spans).dom().contains(k) ==> 0 <= k < usize::MAX && span_points(
                self.spans,
            )[k] < self.table.len()
        &&& forall|i: int, j: int|
            0 <= i < j < self.table.len() ==> (#[trigger] self.table@[i])@ != (
            #[trigger] self.table@[j])@
    }

    /// No span of a list covers an offset below 0 or beyond the offsets
    /// that a text can have.
    pub proof fn offsets_are_in_range(self)
        requires
            self.wf(),
        ensures
            forall|k: int| #[trigger] self@.spans.dom().contains(k) ==> 0 <= k < usize::MAX,
    {
    }

    /// A list without spans.
    pub fn new(defaults: Attrs) -> (list: AttrsList)
        ensures
            list.wf(),
            list@.defaults == defaults@,
            list@.spans == Map::<int, AttrsView>::empty(),
    {
        let list = AttrsList {
            defaults: AttrsOwned::new(defaults),
            table: Vec::new(),
            spans: span_map_new(),
        };
        proof {
            assert(list@.spans =~= Map::<int, AttrsView>::empty());
        }
        list
    }

    /// The attributes of the offsets that no span covers.
    pub fn defaults(&self) -> (attrs: Attrs)
        ensures
            attrs@ == self@.defaults,
    {
        self.defaults.as_attrs()
    }

    /// The spans in rising order, each with its attributes.
    pub fn spans(&self) -> (spans: Vec<(Range<usize>, &AttrsOwned)>)
        requires
            self.wf(),
        ensures
            is_span_list(listed_spans(spans@), self@.spans),
    {
        let entries = span_map_entries(&self.spans);
        let ghost points = span_points(self.spans);
        let ghost ids = span_values(entries@);
        let mut spans: Vec<(Range<usize>, &AttrsOwned)> = Vec::new();
        let mut i: usize = 0;
        while i < entries.len()
            invariant
                i <= entries.len(),
                spans.len() == i,
                points == span_points(self.spans),
                ids == span_values(entries@),
                is_span_list(ids, points),
                forall|k: int| #[trigger]
                    points.dom().contains(k) ==> points[k] < self.table.len(),
                forall|j: int|
                    0 <= j < i ==> (#[trigger] listed_spans(spans@)[j]) == (
                        ids[j].0,
                        ids[j].1,
                        self.table@[ids[j].2 as int]@,
                    ),
            decreases entries.len() - i,
        {
            let entry: Span = entries[i];
            proof {
                assert(ids[i as int] == (entry.0 as int, entry.1 as int, entry.2));
                assert(ids[i as int].0 < ids[i as int].1);
                assert(points.dom().contains(entry.0 as int));
            }
            let ghost before = listed_spans(spans@);
            spans.push((entry.0..entry.1, &self.table[entry.2]));
            proof {
                assert forall|j: int| 0 <= j < i + 1 implies (#[trigger] listed_spans(spans@)[j])
                    == (ids[j].0, ids[j].1, self.table@[ids[j].2 as int]@) by {
                    if j < i {
                        assert(listed_spans(spans@)[j] == before[j]);
                    }
                }
            }
            i += 1;
        }
        proof {
            let listed = listed_spans(spans@);
            let m = self@.spans;
            assert(listed.len() == ids.len());
            assert forall|i: int, j: int| 0 <= i < j < listed.len() implies (#[trigger] listed[i]).1
                <= (#[trigger] listed[j]).0 by {
                assert(ids[i].1 <= ids[j].0);
            }
            assert forall|i: int, k: int|
                0 <= i < listed.len() && (#[trigger] listed[i]).0 <= k < listed[i].1 implies #[trigger] m.dom().contains(
                k) && m[k] == listed[i].2 by {
                assert(ids[i].0 <= k < ids[i].1);
                assert(points.dom().contains(k));
            }
            assert forall|k: int| #[trigger] m.dom().contains(k) implies exists|i: int|
                0 <= i < listed.len() && (#[trigger] listed[i]).0 <= k < listed[i].1 by {
                assert(points.dom().contains(k));
                let i = choose|i: int| 0 <= i < ids.len() && (#[trigger] ids[i]).0 <= k < ids[i].1;
                assert(listed[i].0 <= k < listed[i].1);
            }
            assert forall|i: int|
                0 <= i < listed.len() - 1 && (#[trigger] listed[i]).1 == listed[i + 1].0 implies listed[i].2
                != listed[i + 1].2 by {
                assert(ids[i].1 == ids[i + 1].0);
                assert(ids[i].2 != ids[i + 1].2);
                assert(ids[i].0 < ids[i].1 && ids[i + 1].0 < ids[i + 1].1);
                assert(points.dom().contains(ids[i].0));
                assert(points.dom().contains(ids[i + 1].0));
            }
            assert forall|i: int| 0 <= i < listed.len() implies (#[trigger] listed[i]).0
                < listed[i].1 by {
                assert(ids[i].0 < ids[i].1);
            }
        }
        spans
    }

    /// Removes every span.
    pub fn clear_spans(&mut self)
        requires
            old(self).wf(),
        ensures
            final(self).wf(),
            final(self)@.defaults == old(self)@.defaults,
            final(self)@.spans == Map::<int, AttrsView>::empty(),
    {
        span_map_clear(&mut self.spans);
        self.table.clear();
        proof {
            assert(self@.spans =~= Map::<int, AttrsView>::empty());
        }
    }

    /// Index in the table of the attributes `attrs`, which are added to the
    /// table if they are not in it.
    fn intern(&mut self, attrs: Attrs) -> (id: usize)
        requires
            old(self).wf(),
        ensures
            final(self).wf(),
            final(self).defaults == old(self).defaults,
            final(self).spans == old(self).spans,
            id < final(self).table.len(),
            final(self).table@[id as int]@ == attrs@,
            old(self).table.len() <= final(self).table.len(),
            forall|i: int|
                0 <= i < old(self).table.len() ==> final(self).table@[i] == old(self).table@[i],
    {
        let mut i: usize = 0;
        while i < self.table.len()
            invariant
                i <= self.table.len(),
                *self == *old(self),
                self.wf(),
                forall|j: int| 0 <= j < i ==> (#[trigger] self.table@[j])@ != attrs@,
            decreases self.table.len() - i,
        {
            if self.table[i].as_attrs().same(&attrs) {
                return i;
            }
            i += 1;
        }
        self.table.push(AttrsOwned::new(attrs));
        i
    }

    /// Gives the offsets of `range` the attributes `attrs`, in place of what
    /// they had. An empty range changes nothing.
    pub fn add_span(&mut self, range: Range<usize>, attrs: Attrs)
        requires
            old(self).wf(),
            range.start <= range.end,
        ensures
            final(self).wf(),
            final(self)@ == (if range.start == range.end {
                old(self)@
            } else {
                old(self)@.with_span(range.start as int, range.end as int, attrs@)
            }),
    {
        if range.start == range.end {
            return ;
        }
        let ghost before = self@;
        let id = self.intern(attrs);
        proof {
            assert(self@.spans =~= before.spans);
        }
        span_map_insert(&mut self.spans, range.start, range.end, id);
        proof {
            assert(self@.spans =~= before.with_span(
                range.start as int,
                range.end as int,
                attrs@,
            ).spans);
        }
    }

    /// The attributes in force at `index`: those of the span that covers it,
    /// or the defaults.
    pub fn get_span(&self, index: usize) -> (attrs: Attrs)
        requires
            self.wf(),
        ensures
            attrs@ == self@.at(index as int),
    {
        match span_map_get(&self.spans, index) {
            Some(id) => self.table[id].as_attrs(),
            None => self.defaults.as_attrs(),
        }
    }

    /// Decides whether two lists have the same value: the same defaults,
    /// and the same attributes at every offset.
    pub fn same(&self, other: &AttrsList) -> (b: bool)
        requires
            self.wf(),
            other.wf(),
        ensures
            b == (self@ == other@),
    {
        if !self.defaults.same(&other.defaults) {
            return false;
        }
        let mine = self.spans();
        let theirs = other.spans();
        let ghost a = listed_spans(mine@);
        let ghost b = listed_spans(theirs@);
        proof {
            if self@.spans == other@.spans {
                span_list_is_unique(a, b, self@.spans);
            }
        }
        if mine.len() != theirs.len() {
            return false;
        }
        let mut i: usize = 0;
        while i < mine.len()
            invariant
                i <= mine.len(),
                mine.len() == theirs.len(),
                a == listed_spans(mine@),
                b == listed_spans(theirs@),
                self@.spans == other@.spans ==> a == b,
                forall|j: int| 0 <= j < i ==> a[j] == b[j],
            decreases mine.len() - i,
        {
            let same = mine[i].0.start == theirs[i].0.start && mine[i].0.end == theirs[i].0.end
                && mine[i].1.same(theirs[i].1);
            proof {
                assert(a[i as int] == (
                    mine@[i as int].0.start as int,
                    mine@[i as int].0.end as int,
                    mine@[i as int].1@,
                ));
                assert(b[i as int] == (
                    theirs@[i as int].0.start as int,
                    theirs@[i as int].0.end as int,
                    theirs@[i as int].1@,
                ));
            }
            if !same {
                return false;
            }
            i += 1;
        }
        proof {
            assert(a =~= b);
            span_list_fixes_points(a, self@.spans, other@.spans);
        }
        true
    }

    /// Copies the table of attributes.
    fn clone_table(&self) -> (table: Vec<AttrsOwned>)
        ensures
            table.len() == self.table.len(),
            forall|i: int| 0 <= i < table.len() ==> (#[trigger] table@[i])@ == self.table@[i]@,
    {
        let mut table: Vec<AttrsOwned> = Vec::new();
        let mut i: usize = 0;
        while i < self.table.len()
            invariant
                i <= self.table.len(),
                table.len() == i,
                forall|j: int| 0 <= j < i ==> (#[trigger] table@[j])@ == self.table@[j]@,
            decreases self.table.len() - i,
        {
            table.push(self.table[i].clone());
            i += 1;
        }
        table
    }

    /// Splits the list at `index`. The list keeps the spans of the offsets
    /// below `index`; the result holds the spans of the offsets from `index`
    /// on, counted from `index`. A span that crosses `index` is cut in two.
    pub fn split_off(&mut self, index: usize) -> (rest: AttrsList)
        requires
            old(self).wf(),
        ensures
            final(self).wf(),
            rest.wf(),
            final(self)@ == old(self)@.head(index as int),
            rest@ == old(self)@.tail(index as int),
    {
        let mut rest = AttrsList {
            defaults: self.defaults.clone(),
            table: self.clone_table(),
            spans: span_map_new(),
        };
        let entries = span_map_entries(&self.spans);
        let ghost start_points = span_points(self.spans);
        let ghost ids = span_values(entries@);
        let ghost done: int = 0;
        let mut i: usize = 0;
        while i < entries.len()
            invariant
                i <= entries.len(),
                ids == span_values(entries@),
                is_span_list(ids, start_points),
                done == (if i == 0 {
                    0
                } else {
                    ids[i - 1].1
                }),
                self.defaults == old(self).defaults,
                self.table == old(self).table,
                rest.defaults@ == old(self).defaults@,
                rest.table.len() == self.table.len(),
                forall|j: int|
                    0 <= j < rest.table.len() ==> (#[trigger] rest.table@[j])@ == self.table@[j]@,
                span_points(self.spans) =~= Map::new(
                    |k: int| start_points.dom().contains(k) && (k < index || k >= done),
                    |k: int| start_points[k],
                ),
                span_points(rest.spans) =~= Map::new(
                    |k: int| 0 <= k && start_points.dom().contains(k + index) && k + index < done,
                    |k: int| start_points[k + index],
                ),
            decreases entries.len() - i,
        {
            let (start, end, id): Span = entries[i];
            proof {
                assert(ids[i as int] == (start as int, end as int, id));
                assert(start < end);
                assert(done <= start) by {
                    if i > 0 {
                        assert(ids[i - 1].1 <= ids[i as int].0);
                    }
                }
                // No covered offset lies between the spans seen and this one.
                assert forall|k: int| done <= k < end && start_points.dom().contains(k) implies start
                    <= k && start_points[k] == id by {
                    let j = choose|j: int| 0 <= j < ids.len() && (#[trigger] ids[j]).0 <= k < ids[j].1;
                    if j < i {
                        if j < i - 1 {
                            assert(ids[j].1 <= ids[i - 1].0);
                            assert(ids[i - 1].0 < ids[i - 1].1);
                        }
                    } else if j > i {
                        assert(ids[i as int].1 <= ids[j].0);
                    }
                }
                assert forall|k: int| start <= k < end implies start_points.dom().contains(k)
                    && start_points[k] == id by {
                    assert(ids[i as int].0 <= k < ids[i as int].1);
                    assert(start_points.dom().contains(k));
                }
            }
            if end > index {
                span_map_remove(&mut self.spans, start, end);
                if start >= index {
                    span_map_insert(&mut rest.spans, start - index, end - index, id);
                } else {
                    span_map_insert(&mut rest.spans, 0, end - index, id);
                    span_map_insert(&mut self.spans, start, index, id);
                }
            }
            proof {
                done = end as int;
            }
            i += 1;
        }
        proof {
            let before = old(self)@;
            assert forall|k: int| start_points.dom().contains(k) implies k < done by {
                let j = choose|j: int| 0 <= j < ids.len() && (#[trigger] ids[j]).0 <= k < ids[j].1;
                if j < ids.len() - 1 {
                    assert(ids[j].1 <= ids[ids.len() - 1].0);
                    assert(ids[ids.len() - 1].0 < ids[ids.len() - 1].1);
                }
            }
            assert(self@.spans =~= before.head(index as int).spans);
            assert(rest@.spans =~= before.tail(index as int).spans);
        }
        rest
    }
}

impl Clone for AttrsList {
    /// A copy with the same defaults and the same spans.
    fn clone(&self) -> (copy: AttrsList)
        ensures
            self.wf() ==> copy.wf() && copy@ == self@,
    {
        let copy = AttrsList {
            defaults: self.defaults.clone(),
            table: self.clone_table(),
            spans: span_map_clone(&self.spans),
        };
        proof {
            if self.wf() {
                assert(copy@.spans =~= self@.spans);
            }
        }
        copy
    }
}

} // verus!
