use text_layout::{Attrs, AttrsList, AttrsOwned, Color, FamilyOwned, Weight};

fn span_triples(list: &AttrsList) -> Vec<(usize, usize, u16)> {
    list.spans().into_iter().map(|(range, attrs)| (range.start, range.end, attrs.weight.0)).collect()
}

#[test]
fn span_lookup_inside_and_outside() {
    let defaults = Attrs::new();
    let bold = Attrs::new().weight(Weight(700));
    let mut list = AttrsList::new(defaults);
    list.add_span(1..3, bold);
    assert!(list.get_span(0).same(&defaults));
    assert!(list.get_span(1).same(&bold));
    assert!(list.get_span(2).same(&bold));
    assert!(list.get_span(3).same(&defaults));
    assert!(list.get_span(4).same(&defaults));
    assert!(!list.get_span(1).same(&defaults));
}

#[test]
fn empty_span_is_ignored() {
    let bold = Attrs::new().weight(Weight(700));
    let mut list = AttrsList::new(Attrs::new());
    list.add_span(1..1, bold);
    assert!(list.spans().is_empty());
    assert!(list.get_span(1).same(&Attrs::new()));
}

#[test]
fn new_list_has_defaults_and_no_spans() {
    let defaults = Attrs::new().metadata(7);
    let list = AttrsList::new(defaults);
    assert!(list.defaults().same(&defaults));
    assert!(list.spans().is_empty());
    assert!(list.get_span(0).same(&defaults));
    assert!(list.get_span(usize::MAX).same(&defaults));
}

#[test]
fn later_span_overwrites_earlier() {
    let mut list = AttrsList::new(Attrs::new());
    list.add_span(0..10, Attrs::new().weight(Weight(700)));
    list.add_span(3..5, Attrs::new().weight(Weight(300)));
    assert_eq!(span_triples(&list), vec![(0, 3, 700), (3, 5, 300), (5, 10, 700)]);
    assert_eq!(list.get_span(2).weight, Weight(700));
    assert_eq!(list.get_span(3).weight, Weight(300));
    assert_eq!(list.get_span(4).weight, Weight(300));
    assert_eq!(list.get_span(5).weight, Weight(700));
}

#[test]
fn neighbouring_spans_with_equal_attributes_merge() {
    let bold = Attrs::new().weight(Weight(700));
    let mut list = AttrsList::new(Attrs::new());
    list.add_span(0..2, bold);
    list.add_span(2..4, bold);
    assert_eq!(span_triples(&list), vec![(0, 4, 700)]);
    list.add_span(6..8, bold);
    assert_eq!(span_triples(&list), vec![(0, 4, 700), (6, 8, 700)]);
    list.add_span(4..6, bold);
    assert_eq!(span_triples(&list), vec![(0, 8, 700)]);
}

#[test]
fn neighbouring_spans_with_different_attributes_stay_apart() {
    let mut list = AttrsList::new(Attrs::new());
    list.add_span(0..2, Attrs::new().weight(Weight(700)));
    list.add_span(2..4, Attrs::new().weight(Weight(300)));
    assert_eq!(span_triples(&list), vec![(0, 2, 700), (2, 4, 300)]);
}

#[test]
fn spans_never_overlap_after_many_insertions() {
    let mut list = AttrsList::new(Attrs::new());
    let weights = [100u16, 200, 300, 400, 500, 600, 700];
    for (i, weight) in weights.iter().enumerate() {
        let start = (i * 5) % 13;
        list.add_span(start..start + 4 + i, Attrs::new().weight(Weight(*weight)));
    }
    let spans = span_triples(&list);
    for pair in spans.windows(2) {
        assert!(pair[0].0 < pair[0].1);
        assert!(pair[0].1 <= pair[1].0);
        if pair[0].1 == pair[1].0 {
            assert_ne!(pair[0].2, pair[1].2);
        }
    }
    for offset in 0..30usize {
        let covering: Vec<_> = spans.iter().filter(|s| s.0 <= offset && offset < s.1).collect();
        assert!(covering.len() <= 1);
        let expected = covering.first().map(|s| s.2).unwrap_or(400);
        assert_eq!(list.get_span(offset).weight.0, expected);
    }
}

#[test]
fn clear_spans_removes_all() {
    let mut list = AttrsList::new(Attrs::new());
    list.add_span(0..2, Attrs::new().weight(Weight(700)));
    list.add_span(5..9, Attrs::new().weight(Weight(300)));
    list.clear_spans();
    assert!(list.spans().is_empty());
    assert!(list.get_span(1).same(&Attrs::new()));
    list.add_span(1..2, Attrs::new().weight(Weight(300)));
    assert_eq!(span_triples(&list), vec![(1, 2, 300)]);
}

#[test]
fn split_off_cuts_crossing_span() {
    let bold = Attrs::new().weight(Weight(700));
    let mut list = AttrsList::new(Attrs::new());
    list.add_span(2..8, bold);
    let rest = list.split_off(5);
    assert_eq!(span_triples(&list), vec![(2, 5, 700)]);
    assert_eq!(span_triples(&rest), vec![(0, 3, 700)]);
    assert!(rest.defaults().same(&Attrs::new()));
    assert!(list.get_span(4).same(&bold));
    assert!(list.get_span(5).same(&Attrs::new()));
    assert!(rest.get_span(2).same(&bold));
    assert!(rest.get_span(3).same(&Attrs::new()));
}

#[test]
fn split_off_keeps_left_and_rebases_right() {
    let mut list = AttrsList::new(Attrs::new());
    list.add_span(0..2, Attrs::new().weight(Weight(100)));
    list.add_span(3..5, Attrs::new().weight(Weight(200)));
    list.add_span(5..6, Attrs::new().weight(Weight(300)));
    list.add_span(9..12, Attrs::new().weight(Weight(500)));
    let rest = list.split_off(5);
    assert_eq!(span_triples(&list), vec![(0, 2, 100), (3, 5, 200)]);
    assert_eq!(span_triples(&rest), vec![(0, 1, 300), (4, 7, 500)]);
}

#[test]
fn split_off_at_zero_moves_everything() {
    let mut list = AttrsList::new(Attrs::new());
    list.add_span(0..2, Attrs::new().weight(Weight(100)));
    list.add_span(4..6, Attrs::new().weight(Weight(200)));
    let rest = list.split_off(0);
    assert!(list.spans().is_empty());
    assert_eq!(span_triples(&rest), vec![(0, 2, 100), (4, 6, 200)]);
}

#[test]
fn split_off_behind_all_spans_moves_nothing() {
    let mut list = AttrsList::new(Attrs::new());
    list.add_span(0..2, Attrs::new().weight(Weight(100)));
    let rest = list.split_off(2);
    assert_eq!(span_triples(&list), vec![(0, 2, 100)]);
    assert!(rest.spans().is_empty());
}

#[test]
fn split_parts_can_take_new_spans() {
    let mut list = AttrsList::new(Attrs::new());
    list.add_span(0..10, Attrs::new().weight(Weight(700)));
    let mut rest = list.split_off(4);
    rest.add_span(6..8, Attrs::new().weight(Weight(700)));
    assert_eq!(span_triples(&rest), vec![(0, 8, 700)]);
    list.add_span(4..5, Attrs::new().weight(Weight(100)));
    assert_eq!(span_triples(&list), vec![(0, 4, 700), (4, 5, 100)]);
}

#[test]
fn clone_of_list_is_independent() {
    let mut list = AttrsList::new(Attrs::new());
    list.add_span(1..3, Attrs::new().weight(Weight(700)));
    let copy = list.clone();
    list.add_span(0..9, Attrs::new().weight(Weight(100)));
    assert_eq!(span_triples(&copy), vec![(1, 3, 700)]);
    assert_eq!(span_triples(&list), vec![(0, 9, 100)]);
}

#[test]
fn spans_differing_only_in_colour_stay_apart() {
    let red = Attrs::new().color(Color::rgb(255, 0, 0));
    let blue = Attrs::new().color(Color::rgb(0, 0, 255));
    let mut list = AttrsList::new(Attrs::new());
    list.add_span(0..2, red);
    list.add_span(2..4, blue);
    let spans = list.spans();
    assert_eq!(spans.len(), 2);
    assert_eq!(spans[0].1.color, Color::rgb(255, 0, 0));
    assert_eq!(spans[1].1.color, Color::rgb(0, 0, 255));
    assert!(red.compatible(&blue));
    assert!(!red.same(&blue));
}

#[test]
fn attrs_owned_round_trip() {
    let families = [FamilyOwned::Name("Fira Sans".to_string()), FamilyOwned::Serif];
    let attrs = Attrs::new().family(&families).monospaced(true).metadata(3);
    let owned = AttrsOwned::new(attrs);
    assert!(owned.as_attrs().same(&attrs));
    assert_eq!(owned.family_owned.len(), 2);
    let copy = owned.clone();
    assert!(copy.same(&owned));
}

#[test]
fn lists_compare_by_what_they_hold() {
    let bold = Attrs::new().weight(Weight(700));
    let mut a = AttrsList::new(Attrs::new());
    let mut b = AttrsList::new(Attrs::new());
    assert!(a.same(&b));
    a.add_span(0..4, bold);
    assert!(!a.same(&b));
    // The same spans, put together in another way.
    b.add_span(2..4, bold);
    b.add_span(0..1, Attrs::new().weight(Weight(100)));
    b.add_span(0..2, bold);
    assert!(a.same(&b));
    assert!(b.same(&a));
    b.add_span(3..4, Attrs::new().weight(Weight(100)));
    assert!(!a.same(&b));
    let other_defaults = AttrsList::new(Attrs::new().metadata(1));
    assert!(!AttrsList::new(Attrs::new()).same(&other_defaults));
    assert!(a.same(&a.clone()));
}

#[test]
fn attributes_compare_with_operators() {
    let bold = Attrs::new().weight(Weight(700));
    assert!(bold == Attrs::new().weight(Weight(700)));
    assert!(bold != Attrs::new());
    assert!(AttrsOwned::new(bold) == AttrsOwned::new(bold));
    assert!(AttrsOwned::new(bold) != AttrsOwned::new(Attrs::new()));
}
