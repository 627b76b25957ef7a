use text_layout::hit::{hit_runs, Hit};
use text_layout::{
    Affinity, Attrs, AttrsList, Color, Cursor, HitPoint, LayoutCursor, LayoutGlyph, LayoutLine,
    LineState, Point, ShapeGlyph, ShapeLine, ShapeRun, Shaper, TextLayout, Weight, Wrap,
};

const ADVANCE: u32 = 10;
const ASCENT: u32 = 8;
const DESCENT: u32 = 2;

/// Shapes every character into one glyph of a fixed advance, and breaks
/// lines between glyphs.
struct FixedShaper {
    shaped: usize,
    laid_out: usize,
}

impl FixedShaper {
    fn new() -> Self {
        FixedShaper { shaped: 0, laid_out: 0 }
    }
}

impl Shaper for FixedShaper {
    fn shape(&mut self, text: &str, _attrs_list: &AttrsList) -> ShapeLine {
        self.shaped += 1;
        let glyphs = text
            .char_indices()
            .map(|(start, c)| ShapeGlyph {
                start,
                end: start + c.len_utf8(),
                x_advance: ADVANCE,
                ascent: ASCENT,
                descent: DESCENT,
                x_offset: 0,
                y_offset: 0,
                color: Color::rgb(0, 0, 0),
                cache_key: c as u64,
            })
            .collect();
        ShapeLine { rtl: false, runs: vec![ShapeRun { level: 0, glyphs }] }
    }

    fn layout(&mut self, shape: &ShapeLine, width: i32, wrap: Wrap) -> Vec<LayoutLine> {
        self.laid_out += 1;
        let mut lines = Vec::new();
        let mut glyphs: Vec<LayoutGlyph> = Vec::new();
        let mut x: u32 = 0;
        for run in &shape.runs {
            for glyph in &run.glyphs {
                if wrap != Wrap::Off && !glyphs.is_empty() && (x + glyph.x_advance) as i64 > width as i64 {
                    lines.push(LayoutLine {
                        w: x,
                        glyphs: std::mem::take(&mut glyphs),
                        line_ascent: ASCENT,
                        line_descent: DESCENT,
                        glyph_ascent: ASCENT,
                        glyph_descent: DESCENT,
                    });
                    x = 0;
                }
                glyphs.push(LayoutGlyph {
                    start: glyph.start,
                    end: glyph.end,
                    x: x as i32,
                    w: glyph.x_advance,
                    level: run.level,
                    x_int: x as i32,
                    y_int: 0,
                    color: glyph.color,
                    cache_key: glyph.cache_key,
                });
                x += glyph.x_advance;
            }
        }
        lines.push(LayoutLine {
            w: x,
            glyphs,
            line_ascent: ASCENT,
            line_descent: DESCENT,
            glyph_ascent: ASCENT,
            glyph_descent: DESCENT,
        });
        lines
    }
}

fn buffer_with(shaper: &mut FixedShaper, text: &str) -> TextLayout {
    let mut buffer = TextLayout::new(shaper);
    buffer.set_text(shaper, text, AttrsList::new(Attrs::new()));
    buffer
}

fn line_texts(buffer: &TextLayout) -> Vec<String> {
    buffer.lines.iter().map(|line| line.text().to_string()).collect()
}

#[test]
fn new_buffer_holds_one_empty_line() {
    let mut shaper = FixedShaper::new();
    let buffer = TextLayout::new(&mut shaper);
    assert_eq!(line_texts(&buffer), vec![String::new()]);
    assert_eq!(buffer.scroll(), 0);
    assert_eq!(buffer.wrap(), Wrap::Word);
    assert_eq!(buffer.view_size(), (i32::MAX, i32::MAX));
    assert!(buffer.redraw());
    assert_eq!(buffer.lines[0].cache_state(), LineState::Wrapped);
}

#[test]
fn set_text_splits_on_line_feeds() {
    let mut shaper = FixedShaper::new();
    let buffer = buffer_with(&mut shaper, "one\ntwo\nthree");
    assert_eq!(line_texts(&buffer), vec!["one", "two", "three"]);
    let starts: Vec<usize> = buffer.lines.iter().map(|l| l.start_index()).collect();
    assert_eq!(starts, vec![0, 4, 8]);
}

#[test]
fn set_text_strips_carriage_returns() {
    let mut shaper = FixedShaper::new();
    let buffer = buffer_with(&mut shaper, "a\r\nbc\r\n\r\nd");
    assert_eq!(line_texts(&buffer), vec!["a", "bc", "", "d"]);
    let starts: Vec<usize> = buffer.lines.iter().map(|l| l.start_index()).collect();
    assert_eq!(starts, vec![0, 3, 7, 9]);
}

#[test]
fn lone_carriage_return_is_no_line_break() {
    let mut shaper = FixedShaper::new();
    let buffer = buffer_with(&mut shaper, "a\rb\nc\r");
    assert_eq!(line_texts(&buffer), vec!["a\rb", "c"]);
    let buffer = buffer_with(&mut shaper, "a\r\r\nb");
    assert_eq!(line_texts(&buffer), vec!["a\r", "b"]);
}

#[test]
fn line_feed_at_the_end_starts_an_empty_line() {
    let mut shaper = FixedShaper::new();
    let buffer = buffer_with(&mut shaper, "a\nb\n");
    assert_eq!(line_texts(&buffer), vec!["a", "b", ""]);
    let starts: Vec<usize> = buffer.lines.iter().map(|l| l.start_index()).collect();
    assert_eq!(starts, vec![0, 2, 4]);
    let buffer = buffer_with(&mut shaper, "a\n");
    assert_eq!(line_texts(&buffer), vec!["a", ""]);
    let buffer = buffer_with(&mut shaper, "\n");
    assert_eq!(line_texts(&buffer), vec!["", ""]);
    let buffer = buffer_with(&mut shaper, "\n\n");
    assert_eq!(line_texts(&buffer), vec!["", "", ""]);
    let buffer = buffer_with(&mut shaper, "a\r\n");
    assert_eq!(line_texts(&buffer), vec!["a", ""]);
    assert_eq!(buffer.lines[1].start_index(), 3);
}

#[test]
fn last_line_behind_a_line_feed_has_its_attributes() {
    let mut shaper = FixedShaper::new();
    let bold = Attrs::new().weight(Weight(700));
    let mut attrs = AttrsList::new(Attrs::new());
    attrs.add_span(1..9, bold);
    let mut buffer = TextLayout::new(&mut shaper);
    buffer.set_text(&mut shaper, "ab\n", attrs);
    let spans = |i: usize| -> Vec<(usize, usize)> {
        buffer.lines[i].attrs_list().spans().into_iter().map(|(r, _)| (r.start, r.end)).collect()
    };
    assert_eq!(spans(0), vec![(1, 3)]);
    // The empty line takes the offset behind the line feed and one more.
    assert_eq!(spans(1), vec![(0, 1)]);
}

#[test]
fn empty_text_is_one_empty_line() {
    let mut shaper = FixedShaper::new();
    let mut buffer = buffer_with(&mut shaper, "x\ny");
    buffer.set_text(&mut shaper, "", AttrsList::new(Attrs::new()));
    assert_eq!(line_texts(&buffer), vec![""]);
    assert_eq!(buffer.lines[0].start_index(), 0);
}

#[test]
fn line_count_is_line_feeds_plus_one() {
    let mut shaper = FixedShaper::new();
    for text in
        ["", "a", "a\nb", "a\n\nb", "\na", "ä\nö\nü", "a\r\nb\r\nc", "a\n", "\n", "a\nb\n\n", "a\r\n"]
    {
        let buffer = buffer_with(&mut shaper, text);
        let feeds = text.bytes().filter(|b| *b == b'\n').count();
        assert_eq!(buffer.lines.len(), feeds + 1);
        let expected: Vec<String> =
            text.split('\n').map(|l| l.strip_suffix('\r').unwrap_or(l).to_string()).collect();
        assert_eq!(line_texts(&buffer), expected);
    }
}

#[test]
fn set_text_keeps_multibyte_text() {
    let mut shaper = FixedShaper::new();
    let buffer = buffer_with(&mut shaper, "grüß\n日本語\r\n🙂");
    assert_eq!(line_texts(&buffer), vec!["grüß", "日本語", "🙂"]);
    let starts: Vec<usize> = buffer.lines.iter().map(|l| l.start_index()).collect();
    assert_eq!(starts, vec![0, 7, 18]);
}

#[test]
fn set_text_cuts_attributes_along_lines() {
    let mut shaper = FixedShaper::new();
    let bold = Attrs::new().weight(Weight(700));
    let mut attrs = AttrsList::new(Attrs::new());
    // "ab\r\ncdef\ngh": bold from the b to the e, and on the h.
    attrs.add_span(1..7, bold);
    attrs.add_span(10..11, bold);
    let mut buffer = TextLayout::new(&mut shaper);
    buffer.set_text(&mut shaper, "ab\r\ncdef\ngh", attrs);
    assert_eq!(line_texts(&buffer), vec!["ab", "cdef", "gh"]);
    let spans = |i: usize| -> Vec<(usize, usize)> {
        buffer.lines[i].attrs_list().spans().into_iter().map(|(r, _)| (r.start, r.end)).collect()
    };
    assert_eq!(spans(0), vec![(1, 4)]);
    assert_eq!(spans(1), vec![(0, 3)]);
    assert_eq!(spans(2), vec![(1, 2)]);
    assert!(buffer.lines[1].attrs_list().get_span(2).same(&bold));
    assert!(buffer.lines[1].attrs_list().get_span(3).same(&Attrs::new()));
}

#[test]
fn set_text_lays_out_every_line_and_resets_scroll() {
    let mut shaper = FixedShaper::new();
    let mut buffer = buffer_with(&mut shaper, "a\nb\nc");
    buffer.set_scroll(2);
    assert_eq!(buffer.scroll(), 2);
    buffer.set_redraw(false);
    buffer.set_text(&mut shaper, "d\ne", AttrsList::new(Attrs::new()));
    assert_eq!(buffer.scroll(), 0);
    assert!(buffer.redraw());
    for line in buffer.lines.iter() {
        assert_eq!(line.cache_state(), LineState::Wrapped);
        assert_eq!(line.layout_opt().as_ref().unwrap().len(), 1);
    }
}

#[test]
fn empty_line_has_one_layout_line() {
    let mut shaper = FixedShaper::new();
    let buffer = buffer_with(&mut shaper, "");
    let layout = buffer.lines[0].layout_opt().as_ref().unwrap();
    assert_eq!(layout.len(), 1);
    assert!(layout[0].glyphs.is_empty());
}

struct EmptyShaper;

impl Shaper for EmptyShaper {
    fn shape(&mut self, _text: &str, _attrs_list: &AttrsList) -> ShapeLine {
        ShapeLine { rtl: true, runs: Vec::new() }
    }

    fn layout(&mut self, _shape: &ShapeLine, _width: i32, _wrap: Wrap) -> Vec<LayoutLine> {
        Vec::new()
    }
}

#[test]
fn layout_without_lines_stands_for_one_empty_line() {
    let mut shaper = EmptyShaper;
    let mut buffer = TextLayout::new(&mut shaper);
    buffer.set_text(&mut shaper, "abc\ndef", AttrsList::new(Attrs::new()));
    for line in buffer.lines.iter() {
        let layout = line.layout_opt().as_ref().unwrap();
        assert_eq!(layout.len(), 1);
        assert!(layout[0].glyphs.is_empty());
        assert_eq!(layout[0].w, 0);
        assert_eq!(layout[0].line_ascent + layout[0].line_descent, 0);
    }
    let runs = buffer.runs();
    assert_eq!(runs.len(), 2);
    assert!(runs[0].rtl);
    // Both runs have no height; the point lies below the last of them.
    assert_eq!(buffer.hit(5, 5), Some(Cursor::new(1, 0)));
    assert_eq!(buffer.hit(5, 0), None);
    assert_eq!(buffer.hit(5, -1), Some(Cursor::new(0, 0)));
}

#[test]
fn shape_until_stops_when_enough_lines_are_laid_out() {
    let mut shaper = FixedShaper::new();
    let mut buffer = buffer_with(&mut shaper, "a\nb\nc\nd");
    for line in buffer.lines.iter_mut() {
        line.reset();
    }
    let before = shaper.shaped;
    buffer.set_redraw(false);
    assert_eq!(buffer.shape_until(&mut shaper, 2), 2);
    assert_eq!(shaper.shaped - before, 2);
    let states: Vec<LineState> = buffer.lines.iter().map(|l| l.cache_state()).collect();
    assert_eq!(
        states,
        vec![LineState::Wrapped, LineState::Wrapped, LineState::Unshaped, LineState::Unshaped]
    );
    assert!(buffer.redraw());
    buffer.set_redraw(false);
    assert_eq!(buffer.shape_until(&mut shaper, 2), 2);
    assert_eq!(shaper.shaped - before, 2);
    assert!(!buffer.redraw());
    assert_eq!(buffer.shape_until(&mut shaper, 0), 0);
    assert_eq!(buffer.shape_until(&mut shaper, -3), 0);
    assert_eq!(buffer.shape_until(&mut shaper, 100), 4);
    assert_eq!(shaper.shaped - before, 4);
}

#[test]
fn shape_until_counts_wrapped_lines() {
    let mut shaper = FixedShaper::new();
    let mut buffer = buffer_with(&mut shaper, "abcdef\ngh\nijkl");
    buffer.set_size(&mut shaper, 20, 1000);
    // Three, one and two layout lines.
    assert_eq!(buffer.cached_layout_lines(), 6);
    for line in buffer.lines.iter_mut() {
        line.reset();
    }
    assert_eq!(buffer.cached_layout_lines(), 0);
    assert_eq!(buffer.shape_until(&mut shaper, 1), 3);
    assert_eq!(buffer.shape_until(&mut shaper, 3), 3);
    assert_eq!(buffer.shape_until(&mut shaper, 4), 4);
    assert_eq!(buffer.shape_until(&mut shaper, 5), 6);
    assert_eq!(buffer.cached_layout_lines(), 6);
}

#[test]
fn scroll_stays_in_range() {
    let mut shaper = FixedShaper::new();
    let mut buffer = buffer_with(&mut shaper, "a\nb\nc\nd\ne");
    let in_range = |buffer: &TextLayout| {
        let total = buffer.cached_layout_lines();
        0 <= buffer.scroll() && buffer.scroll() <= std::cmp::max(0, total - 1)
    };
    buffer.set_scroll(3);
    assert_eq!(buffer.scroll(), 3);
    assert!(in_range(&buffer));
    buffer.set_scroll(100);
    assert_eq!(buffer.scroll(), 4);
    buffer.set_scroll(-7);
    assert_eq!(buffer.scroll(), 0);
    buffer.set_scroll(i32::MAX);
    assert_eq!(buffer.scroll(), 4);
    buffer.set_scroll(i32::MIN);
    assert_eq!(buffer.scroll(), 0);
    buffer.set_scroll(4);
    buffer.set_size(&mut shaper, 5, 30);
    assert!(in_range(&buffer));
    assert_eq!(buffer.scroll(), 4);
    buffer.set_wrap(&mut shaper, Wrap::Off);
    assert!(in_range(&buffer));
    buffer.set_text(&mut shaper, "x", AttrsList::new(Attrs::new()));
    assert_eq!(buffer.scroll(), 0);
    buffer.set_scroll(1);
    assert_eq!(buffer.scroll(), 0);
    assert!(in_range(&buffer));
}

#[test]
fn scroll_follows_shrinking_layout() {
    let mut shaper = FixedShaper::new();
    let mut buffer = buffer_with(&mut shaper, "abcdefgh");
    buffer.set_size(&mut shaper, 20, 1000);
    assert_eq!(buffer.cached_layout_lines(), 4);
    buffer.set_scroll(3);
    assert_eq!(buffer.scroll(), 3);
    buffer.set_size(&mut shaper, 40, 1000);
    assert_eq!(buffer.cached_layout_lines(), 2);
    assert_eq!(buffer.scroll(), 1);
    buffer.set_wrap(&mut shaper, Wrap::Off);
    assert_eq!(buffer.cached_layout_lines(), 1);
    assert_eq!(buffer.scroll(), 0);
}

#[test]
fn set_scroll_asks_for_redraw_only_on_change() {
    let mut shaper = FixedShaper::new();
    let mut buffer = buffer_with(&mut shaper, "a\nb\nc");
    buffer.set_redraw(false);
    buffer.set_scroll(0);
    assert!(!buffer.redraw());
    buffer.set_scroll(2);
    assert!(buffer.redraw());
    buffer.set_redraw(false);
    buffer.set_scroll(9);
    assert!(!buffer.redraw());
}

#[test]
fn set_size_clamps_and_rewraps() {
    let mut shaper = FixedShaper::new();
    let mut buffer = buffer_with(&mut shaper, "abcd");
    let shaped = shaper.shaped;
    let laid_out = shaper.laid_out;
    buffer.set_size(&mut shaper, -5, -9);
    assert_eq!(buffer.view_size(), (0, 0));
    // The shape is kept; only the layout is made anew.
    assert_eq!(shaper.shaped, shaped);
    assert_eq!(shaper.laid_out, laid_out + 1);
    assert_eq!(buffer.lines[0].layout_opt().as_ref().unwrap().len(), 4);
    buffer.set_redraw(false);
    buffer.set_size(&mut shaper, 0, 0);
    assert_eq!(shaper.laid_out, laid_out + 1);
    assert!(!buffer.redraw());
    buffer.set_size(&mut shaper, 20, 0);
    assert!(buffer.redraw());
    assert_eq!(buffer.lines[0].layout_opt().as_ref().unwrap().len(), 2);
}

#[test]
fn set_wrap_rewraps_on_change_only() {
    let mut shaper = FixedShaper::new();
    let mut buffer = buffer_with(&mut shaper, "abcd");
    buffer.set_size(&mut shaper, 20, 100);
    let laid_out = shaper.laid_out;
    buffer.set_wrap(&mut shaper, Wrap::Word);
    assert_eq!(shaper.laid_out, laid_out);
    buffer.set_wrap(&mut shaper, Wrap::Off);
    assert_eq!(buffer.wrap(), Wrap::Off);
    assert_eq!(shaper.laid_out, laid_out + 1);
    assert_eq!(buffer.lines[0].layout_opt().as_ref().unwrap().len(), 1);
}

#[test]
fn unshaped_lines_are_not_rewrapped() {
    let mut shaper = FixedShaper::new();
    let mut buffer = buffer_with(&mut shaper, "ab\ncd");
    buffer.lines[1].reset();
    let shaped = shaper.shaped;
    buffer.set_size(&mut shaper, 10, 100);
    assert_eq!(buffer.lines[0].layout_opt().as_ref().unwrap().len(), 2);
    // The view has no end, so the line without shape is laid out as well.
    assert_eq!(shaper.shaped, shaped + 1);
    assert_eq!(buffer.lines[1].cache_state(), LineState::Wrapped);
}

#[test]
fn two_lines_without_wrapping() {
    let mut shaper = FixedShaper::new();
    let buffer = buffer_with(&mut shaper, "ab\ncd");
    assert_eq!(buffer.lines.len(), 2);
    for line in buffer.lines.iter() {
        assert_eq!(line.layout_opt().as_ref().unwrap().len(), 1);
    }
    let runs = buffer.runs();
    assert_eq!(runs.len(), 2);
    assert_eq!(runs[0].glyphs[0].x, 0);
    let first = buffer.hit_position(0);
    assert_eq!(first.point.x, runs[0].glyphs[0].x as i64);
    assert_eq!(first.line, 0);
    let second = buffer.hit_position(1);
    assert_eq!(second.point.x, 10);
    let c = buffer.hit_position(3);
    assert_eq!(c.line, 1);
    assert_eq!(c.point.x, 0);
    // The point lies in the band of its run, one unit above the baseline.
    assert_eq!(c.point.y, runs[1].line_y - 1);
    assert_eq!(first.point.y, runs[0].line_y - 1);
    assert_eq!(first.glyph_ascent, runs[0].glyph_ascent);
    assert_eq!(buffer.hit(first.point.x, first.point.y), Some(Cursor::new_with_affinity(0, 0, Affinity::After)));
    assert_eq!(buffer.hit(c.point.x, c.point.y), Some(Cursor::new_with_affinity(1, 0, Affinity::After)));
    let d = buffer.hit_position(4);
    assert_eq!(d.line, 1);
    assert_eq!(d.point.x, 10);
}

#[test]
fn long_line_wraps_into_two_runs_of_one_line() {
    let mut shaper = FixedShaper::new();
    let text = "0123456789012345678901234567890123456789";
    assert_eq!(text.len(), 40);
    let mut buffer = buffer_with(&mut shaper, text);
    buffer.set_size(&mut shaper, 250, 1000);
    let runs = buffer.runs();
    assert_eq!(runs.len(), 2);
    assert_eq!(runs[0].line_i, 0);
    assert_eq!(runs[1].line_i, 0);
    assert_eq!(runs[0].glyphs.len(), 25);
    assert_eq!(runs[1].glyphs.len(), 15);
    assert_eq!(runs[0].line_w, 250);
    assert_eq!(runs[1].line_w, 150);
    assert_eq!(runs[0].text, text);
}

#[test]
fn runs_carry_their_place() {
    let mut shaper = FixedShaper::new();
    let buffer = buffer_with(&mut shaper, "ab\ncd\nef");
    let runs = buffer.runs();
    assert_eq!(runs.len(), 3);
    for (i, run) in runs.iter().enumerate() {
        assert_eq!(run.line_i, i);
        assert_eq!(run.line_height, 10);
        // The glyphs fill the line: the baseline lies a descent above the lower edge.
        assert_eq!(run.line_y, 10 * (i as i64 + 1) - 2);
        assert_eq!(run.glyph_ascent, 8);
        assert_eq!(run.glyph_descent, 2);
        assert!(!run.rtl);
    }
}

struct TallLineShaper;

impl Shaper for TallLineShaper {
    fn shape(&mut self, _text: &str, _attrs_list: &AttrsList) -> ShapeLine {
        ShapeLine { rtl: false, runs: Vec::new() }
    }

    fn layout(&mut self, _shape: &ShapeLine, _width: i32, _wrap: Wrap) -> Vec<LayoutLine> {
        vec![
            LayoutLine {
                w: 7,
                glyphs: Vec::new(),
                line_ascent: 14,
                line_descent: 7,
                glyph_ascent: 8,
                glyph_descent: 2,
            },
            LayoutLine {
                w: 9,
                glyphs: Vec::new(),
                line_ascent: 3,
                line_descent: 2,
                glyph_ascent: 8,
                glyph_descent: 2,
            },
        ]
    }
}

#[test]
fn glyphs_are_centred_in_the_line() {
    let mut shaper = TallLineShaper;
    let mut buffer = TextLayout::new(&mut shaper);
    buffer.set_text(&mut shaper, "x", AttrsList::new(Attrs::new()));
    let runs = buffer.runs();
    assert_eq!(runs.len(), 2);
    // Height 21, glyphs 10: 11 are free, half of it, rounded towards 0, is 5.
    assert_eq!(runs[0].line_height, 21);
    assert_eq!(runs[0].line_y, 21 - 5 - 2);
    // Height 5, glyphs 10: the glyphs stick out by 5, half of it is 2.
    assert_eq!(runs[1].line_height, 5);
    assert_eq!(runs[1].line_y, 26 + 2 - 2);
    let size = buffer.size();
    assert_eq!(size.width, 9);
    assert_eq!(size.height, 26);
}

#[test]
fn runs_stop_at_the_height_of_the_view() {
    let mut shaper = FixedShaper::new();
    let mut buffer = buffer_with(&mut shaper, "a\nb\nc\nd");
    buffer.set_size(&mut shaper, 100, 25);
    assert_eq!(buffer.runs().len(), 2);
    buffer.set_size(&mut shaper, 100, 30);
    assert_eq!(buffer.runs().len(), 3);
    buffer.set_size(&mut shaper, 100, 9);
    assert_eq!(buffer.runs().len(), 0);
    buffer.set_size(&mut shaper, 100, 0);
    assert_eq!(buffer.runs().len(), 0);
    assert_eq!(buffer.size().height, 0);
    assert_eq!(buffer.size().width, 0);
}

#[test]
fn runs_skip_what_is_scrolled_past() {
    let mut shaper = FixedShaper::new();
    let mut buffer = buffer_with(&mut shaper, "a\nbc\nd");
    buffer.set_size(&mut shaper, 10, 20);
    // Layout lines: a, b, c, d.
    buffer.set_scroll(1);
    let runs = buffer.runs();
    assert_eq!(runs.len(), 2);
    assert_eq!((runs[0].line_i, runs[0].glyphs[0].start), (1, 0));
    assert_eq!((runs[1].line_i, runs[1].glyphs[0].start), (1, 1));
    assert_eq!(runs[0].line_y, 8);
    buffer.set_scroll(3);
    let runs = buffer.runs();
    assert_eq!(runs.len(), 1);
    assert_eq!(runs[0].line_i, 2);
}

#[test]
fn runs_stop_at_a_line_that_is_not_laid_out() {
    let mut shaper = FixedShaper::new();
    let mut buffer = buffer_with(&mut shaper, "a\nb\nc");
    buffer.lines[1].reset();
    assert_eq!(buffer.runs().len(), 1);
    buffer.lines[0].reset_layout();
    assert_eq!(buffer.runs().len(), 0);
}

#[test]
fn walk_gives_runs_one_by_one() {
    let mut shaper = FixedShaper::new();
    let mut buffer = buffer_with(&mut shaper, "a\nb\nc");
    buffer.set_scroll(1);
    let mut walk = buffer.layout_runs();
    assert_eq!(walk.size_hint(), (2, Some(2)));
    assert_eq!(walk.next().unwrap().line_i, 1);
    assert_eq!(walk.size_hint(), (1, Some(1)));
    assert_eq!(walk.next().unwrap().line_i, 2);
    assert!(walk.next().is_none());
    assert!(walk.next().is_none());
    assert_eq!(walk.size_hint(), (0, Some(0)));
    // A new walk starts over.
    assert_eq!(buffer.layout_runs().collect().len(), 2);
}

#[test]
fn size_is_widest_run_and_sum_of_heights() {
    let mut shaper = FixedShaper::new();
    let buffer = buffer_with(&mut shaper, "abc\nd\nefghi");
    let size = buffer.size();
    assert_eq!(size.width, 50);
    assert_eq!(size.height, 30);
}

#[test]
fn hit_on_left_edge_of_glyph_gives_its_start() {
    let mut shaper = FixedShaper::new();
    let buffer = buffer_with(&mut shaper, "abc");
    let runs = buffer.runs();
    let x = runs[0].glyphs[0].x as i64;
    assert_eq!(buffer.hit(x, 3), Some(Cursor::new_with_affinity(0, 0, Affinity::After)));
    // An edge that two glyphs share belongs to the glyph that starts there.
    for glyph in runs[0].glyphs.iter() {
        assert_eq!(
            buffer.hit(glyph.x as i64, 3),
            Some(Cursor::new_with_affinity(0, glyph.start, Affinity::After))
        );
    }
    let x = runs[0].glyphs[1].x as i64;
    assert_eq!(buffer.hit(x - 1, 3), Some(Cursor::new_with_affinity(0, 1, Affinity::Before)));
    assert_eq!(buffer.hit(x + 1, 3), Some(Cursor::new_with_affinity(0, 1, Affinity::After)));
    // The right edge of the last glyph is shared with no glyph.
    assert_eq!(buffer.hit(30, 3), Some(Cursor::new_with_affinity(0, 3, Affinity::Before)));
    assert_eq!(buffer.hit_point(Point::new(30, 3)), HitPoint { line: 0, index: 3, is_inside: true });
}

#[test]
fn hit_chooses_the_nearer_side_of_a_glyph() {
    let mut shaper = FixedShaper::new();
    let buffer = buffer_with(&mut shaper, "abc");
    assert_eq!(buffer.hit(14, 3), Some(Cursor::new_with_affinity(0, 1, Affinity::After)));
    assert_eq!(buffer.hit(15, 3), Some(Cursor::new_with_affinity(0, 2, Affinity::Before)));
    assert_eq!(buffer.hit(19, 3), Some(Cursor::new_with_affinity(0, 2, Affinity::Before)));
    assert_eq!(buffer.hit(30, 3), Some(Cursor::new_with_affinity(0, 3, Affinity::Before)));
}

#[test]
fn hit_beside_the_glyphs() {
    let mut shaper = FixedShaper::new();
    let buffer = buffer_with(&mut shaper, "abc\nde");
    // Left of the run: the start of its first glyph.
    assert_eq!(buffer.hit(-5, 3), Some(Cursor::new_with_affinity(0, 0, Affinity::After)));
    // Right of the run: the end of its last glyph.
    assert_eq!(buffer.hit(500, 3), Some(Cursor::new_with_affinity(0, 3, Affinity::Before)));
    assert_eq!(buffer.hit(500, 13), Some(Cursor::new_with_affinity(1, 2, Affinity::Before)));
    assert_eq!(
        buffer.hit_point(Point::new(500, 3)),
        HitPoint { line: 0, index: 3, is_inside: false }
    );
    assert_eq!(
        buffer.hit_point(Point::new(-5, 3)),
        HitPoint { line: 0, index: 0, is_inside: false }
    );
    assert_eq!(
        buffer.hit_point(Point::new(31, 3)),
        HitPoint { line: 0, index: 3, is_inside: false }
    );
    assert_eq!(
        buffer.hit_point(Point::new(0, 3)),
        HitPoint { line: 0, index: 0, is_inside: true }
    );
    assert_eq!(
        buffer.hit_point(Point::new(12, 13)),
        HitPoint { line: 1, index: 1, is_inside: true }
    );
}

#[test]
fn hit_above_and_below_the_runs() {
    let mut shaper = FixedShaper::new();
    let buffer = buffer_with(&mut shaper, "abc\nde");
    // The band of the first run reaches from -2 to 8.
    assert_eq!(buffer.hit(12, -3), Some(Cursor::new(0, 0)));
    assert_eq!(buffer.hit(12, -2), Some(Cursor::new_with_affinity(0, 1, Affinity::After)));
    assert_eq!(buffer.hit(12, 8), Some(Cursor::new_with_affinity(1, 1, Affinity::After)));
    // The band of the last run ends at 18; on the baseline nothing is hit.
    assert_eq!(buffer.hit(12, 17), Some(Cursor::new_with_affinity(1, 1, Affinity::After)));
    assert_eq!(buffer.hit(12, 18), None);
    assert_eq!(buffer.hit(12, 19), Some(Cursor::new_with_affinity(1, 2, Affinity::Before)));
    assert_eq!(buffer.hit(12, 1000), Some(Cursor::new_with_affinity(1, 2, Affinity::Before)));
    assert_eq!(
        buffer.hit_point(Point::new(12, -3)),
        HitPoint { line: 0, index: 0, is_inside: false }
    );
    assert_eq!(
        buffer.hit_point(Point::new(12, 1000)),
        HitPoint { line: 1, index: 2, is_inside: false }
    );
    assert_eq!(
        buffer.hit_point(Point::new(12, 18)),
        HitPoint { line: 0, index: 0, is_inside: false }
    );
}

#[test]
fn hit_in_an_empty_buffer() {
    let mut shaper = FixedShaper::new();
    let buffer = buffer_with(&mut shaper, "");
    assert_eq!(buffer.hit(0, 3), Some(Cursor::new(0, 0)));
    assert_eq!(buffer.hit(0, 50), Some(Cursor::new(0, 0)));
    let mut buffer = buffer;
    buffer.set_size(&mut shaper, 10, 0);
    assert_eq!(buffer.hit(0, 3), None);
    assert_eq!(buffer.hit_point(Point::new(0, 3)), HitPoint { line: 0, index: 0, is_inside: false });
}

#[test]
fn hit_and_hit_position_are_inverse() {
    let mut shaper = FixedShaper::new();
    let buffer = buffer_with(&mut shaper, "hello\nworld");
    for idx in 0..5usize {
        let position = buffer.hit_position(idx);
        let cursor = buffer.hit(position.point.x, position.point.y);
        assert_eq!(cursor, Some(Cursor::new_with_affinity(0, idx, Affinity::After)));
    }
    for idx in 6..11usize {
        let position = buffer.hit_position(idx);
        assert_eq!(position.line, 1);
        let cursor = buffer.hit(position.point.x, position.point.y);
        assert_eq!(cursor, Some(Cursor::new_with_affinity(1, idx - 6, Affinity::After)));
        let point = buffer.hit_point(position.point);
        assert_eq!(point, HitPoint { line: 1, index: idx - 6, is_inside: true });
    }
    // The line break lies at the right edge of the last glyph.
    let position = buffer.hit_position(5);
    let cursor = buffer.hit(position.point.x, position.point.y);
    assert_eq!(cursor, Some(Cursor::new_with_affinity(0, 5, Affinity::Before)));
}

#[test]
fn hit_position_between_and_behind_glyphs() {
    let mut shaper = FixedShaper::new();
    let buffer = buffer_with(&mut shaper, "ab\ncd");
    // The line break: the right edge of the glyph in front of it.
    let gap = buffer.hit_position(2);
    assert_eq!((gap.line, gap.point.x), (0, 20));
    let end = buffer.hit_position(5);
    assert_eq!((end.line, end.point.x), (1, 20));
    let far = buffer.hit_position(99);
    assert_eq!((far.line, far.point.x), (1, 20));
    assert_eq!(far.glyph_ascent, 8);
    assert_eq!(far.glyph_descent, 2);
}

#[test]
fn hit_position_in_an_empty_buffer() {
    let mut shaper = FixedShaper::new();
    let buffer = buffer_with(&mut shaper, "");
    let position = buffer.hit_position(0);
    assert_eq!((position.line, position.point.x, position.point.y), (0, 0, 0));
    let position = buffer.hit_position(4);
    assert_eq!((position.line, position.point.x, position.point.y), (0, 0, 0));
}

#[test]
fn line_col_position_finds_glyphs_and_line_ends() {
    let mut shaper = FixedShaper::new();
    let buffer = buffer_with(&mut shaper, "abc\nde\nf");
    let at = buffer.line_col_position(1, 1);
    assert_eq!((at.line, at.point.x, at.point.y), (1, 10, 17));
    let at = buffer.line_col_position(0, 0);
    assert_eq!((at.line, at.point.x, at.point.y), (0, 0, 7));
    // Behind the glyphs of line 1: the search ends at the first glyph of
    // line 2, at the right edge of the last glyph of line 1.
    let at = buffer.line_col_position(1, 7);
    assert_eq!((at.line, at.point.x, at.point.y), (1, 20, 17));
    // Behind the last line.
    let at = buffer.line_col_position(2, 5);
    assert_eq!((at.line, at.point.x, at.point.y), (2, 10, 27));
    let at = buffer.line_col_position(9, 0);
    assert_eq!((at.line, at.point.x, at.point.y), (2, 10, 27));
}

#[test]
fn layout_cursor_finds_layout_line_and_slot() {
    let mut shaper = FixedShaper::new();
    let mut buffer = buffer_with(&mut shaper, "abcdef");
    buffer.set_size(&mut shaper, 30, 100);
    let at = |cursor: Cursor| buffer.layout_cursor(&cursor);
    assert_eq!(at(Cursor::new_with_affinity(0, 0, Affinity::After)), LayoutCursor::new(0, 0, 0));
    assert_eq!(at(Cursor::new_with_affinity(0, 1, Affinity::After)), LayoutCursor::new(0, 0, 1));
    assert_eq!(at(Cursor::new_with_affinity(0, 1, Affinity::Before)), LayoutCursor::new(0, 0, 1));
    assert_eq!(at(Cursor::new_with_affinity(0, 3, Affinity::Before)), LayoutCursor::new(0, 0, 3));
    assert_eq!(at(Cursor::new_with_affinity(0, 3, Affinity::After)), LayoutCursor::new(0, 1, 0));
    assert_eq!(at(Cursor::new_with_affinity(0, 6, Affinity::Before)), LayoutCursor::new(0, 1, 3));
    // No slot for this cursor: the start of the line.
    assert_eq!(at(Cursor::new_with_affinity(0, 6, Affinity::After)), LayoutCursor::new(0, 0, 0));
    assert_eq!(at(Cursor::new_with_affinity(0, 0, Affinity::Before)), LayoutCursor::new(0, 0, 0));
}

#[test]
fn shape_until_cursor_scrolls_up_to_the_cursor() {
    let mut shaper = FixedShaper::new();
    let mut buffer = buffer_with(&mut shaper, "a\nb\nc\nd");
    buffer.set_scroll(3);
    buffer.shape_until_cursor(&mut shaper, Cursor::new_with_affinity(1, 0, Affinity::After));
    assert_eq!(buffer.scroll(), 1);
    // A cursor below the top of the view leaves the scroll offset alone.
    buffer.shape_until_cursor(&mut shaper, Cursor::new_with_affinity(3, 0, Affinity::After));
    assert_eq!(buffer.scroll(), 1);
    buffer.shape_until_cursor(&mut shaper, Cursor::new_with_affinity(0, 0, Affinity::After));
    assert_eq!(buffer.scroll(), 0);
}

#[test]
fn shape_until_cursor_lays_out_up_to_the_cursor() {
    let mut shaper = FixedShaper::new();
    let mut buffer = buffer_with(&mut shaper, "abcd\nef\ngh");
    buffer.set_size(&mut shaper, 20, 100);
    for line in buffer.lines.iter_mut() {
        line.reset();
    }
    buffer.set_scroll(0);
    buffer.shape_until_cursor(&mut shaper, Cursor::new_with_affinity(0, 2, Affinity::After));
    for line in buffer.lines.iter() {
        assert_eq!(line.cache_state(), LineState::Wrapped);
    }
    assert_eq!(buffer.scroll(), 0);
    // A cursor on a line that is not there counts as behind the text.
    buffer.shape_until_cursor(&mut shaper, Cursor::new(7, 0));
    assert_eq!(buffer.scroll(), 0);
}

#[test]
fn line_shape_and_line_layout_cache_their_results() {
    let mut shaper = FixedShaper::new();
    let mut buffer = buffer_with(&mut shaper, "ab\ncd");
    buffer.lines[1].reset();
    let shaped = shaper.shaped;
    assert_eq!(buffer.line_shape(&mut shaper, 1).unwrap().runs[0].glyphs.len(), 2);
    assert_eq!(shaper.shaped, shaped + 1);
    assert_eq!(buffer.lines[1].cache_state(), LineState::Shaped);
    assert_eq!(buffer.line_layout(&mut shaper, 1).unwrap().len(), 1);
    assert_eq!(shaper.shaped, shaped + 1);
    assert_eq!(buffer.lines[1].cache_state(), LineState::Wrapped);
    assert!(buffer.line_shape(&mut shaper, 2).is_none());
    assert!(buffer.line_layout(&mut shaper, 2).is_none());
}

#[test]
fn line_record_drops_its_caches_on_change() {
    let mut shaper = FixedShaper::new();
    let mut buffer = buffer_with(&mut shaper, "ab");
    let line = &mut buffer.lines[0];
    assert_eq!(line.cache_state(), LineState::Wrapped);
    line.reset_layout();
    assert_eq!(line.cache_state(), LineState::Shaped);
    assert!(line.shape_opt().is_some());
    line.layout(&mut shaper, 100, Wrap::Word);
    line.set_attrs_list(AttrsList::new(Attrs::new().metadata(1)));
    assert_eq!(line.cache_state(), LineState::Unshaped);
    assert!(line.layout_opt().is_none());
    line.layout(&mut shaper, 100, Wrap::Word);
    line.set_text("xyz".to_string(), AttrsList::new(Attrs::new()));
    assert_eq!(line.cache_state(), LineState::Unshaped);
    assert_eq!(line.text(), "xyz");
    assert_eq!(line.shape(&mut shaper).runs[0].glyphs.len(), 3);
    assert_eq!(line.cache_state(), LineState::Shaped);
    line.reset();
    assert_eq!(line.cache_state(), LineState::Unshaped);
}

fn glyph(start: usize, end: usize, x: i32, w: u32, level: u8) -> LayoutGlyph {
    LayoutGlyph {
        start,
        end,
        x,
        w,
        level,
        x_int: x,
        y_int: 0,
        color: Color::rgb(0, 0, 0),
        cache_key: 0,
    }
}

fn run_of<'a>(text: &'a str, glyphs: &'a [LayoutGlyph], rtl: bool) -> text_layout::LayoutRun<'a> {
    text_layout::LayoutRun {
        line_i: 0,
        text,
        rtl,
        glyphs,
        line_y: 8,
        line_w: 100,
        line_height: 10,
        glyph_ascent: 8,
        glyph_descent: 2,
    }
}

#[test]
fn hit_divides_a_glyph_among_its_grapheme_clusters() {
    // One glyph for two clusters, each of a letter and a combining accent.
    let text = "e\u{301}a\u{300}";
    let glyphs = [glyph(0, 6, 0, 40, 0)];
    let runs = vec![run_of(text, &glyphs, false)];
    let hit = |x: i64| hit_runs(&runs, x, 3).map(|h: Hit| (h.cursor.index, h.cursor.affinity));
    assert_eq!(hit(0), Some((0, Affinity::After)));
    assert_eq!(hit(9), Some((0, Affinity::After)));
    assert_eq!(hit(10), Some((3, Affinity::Before)));
    assert_eq!(hit(21), Some((3, Affinity::After)));
    assert_eq!(hit(35), Some((6, Affinity::Before)));
}

#[test]
fn hit_in_a_glyph_whose_range_is_no_part_of_the_text() {
    let text = "é";
    // The glyph ends inside the character, and one glyph lies behind the text.
    let glyphs = [glyph(0, 1, 0, 10, 0), glyph(5, 9, 10, 10, 0)];
    let runs = vec![run_of(text, &glyphs, false)];
    let hit = |x: i64| hit_runs(&runs, x, 3).map(|h: Hit| (h.cursor.index, h.cursor.affinity));
    assert_eq!(hit(2), Some((0, Affinity::After)));
    assert_eq!(hit(7), Some((0, Affinity::Before)));
    assert_eq!(hit(12), Some((5, Affinity::After)));
    assert_eq!(hit(18), Some((5, Affinity::Before)));
}

#[test]
fn hit_in_text_that_reads_right_to_left() {
    let text = "אב";
    // The first letter stands on the right.
    let glyphs = [glyph(2, 4, 0, 10, 1), glyph(0, 2, 10, 10, 1)];
    let runs = vec![run_of(text, &glyphs, true)];
    let hit = |x: i64| hit_runs(&runs, x, 3).map(|h: Hit| (h.cursor.index, h.cursor.affinity));
    // The left half of a glyph lies towards the next character.
    assert_eq!(hit(2), Some((4, Affinity::Before)));
    assert_eq!(hit(7), Some((2, Affinity::After)));
    assert_eq!(hit(12), Some((2, Affinity::Before)));
    assert_eq!(hit(17), Some((0, Affinity::After)));
    // Right of the left edge of the first glyph in the list, on no glyph:
    // the start of that glyph.
    assert_eq!(hit(50), Some((2, Affinity::After)));
    // Left of it: the end of the last glyph in the list.
    assert_eq!(hit(-4), Some((2, Affinity::Before)));
    // Below the run: the right side of the last glyph.
    assert_eq!(
        hit_runs(&runs, 0, 100).map(|h| h.cursor),
        Some(Cursor::new_with_affinity(0, 0, Affinity::After))
    );
}

#[test]
fn hit_takes_the_first_run_below_the_point() {
    let glyphs = [glyph(0, 1, 0, 10, 0)];
    let mut upper = run_of("a", &glyphs, false);
    upper.line_y = 8;
    let mut lower = run_of("a", &glyphs, false);
    lower.line_i = 1;
    lower.line_y = 30;
    let runs = vec![upper, lower];
    // Between the bands: the start of the line of the run below.
    assert_eq!(hit_runs(&runs, 3, 12).map(|h| h.cursor), Some(Cursor::new(1, 0)));
    assert_eq!(hit_runs(&runs, 3, 12).map(|h| h.is_inside), Some(false));
    assert_eq!(hit_runs(&Vec::new(), 3, 12), None);
}

#[test]
fn highlight_covers_the_selected_glyphs() {
    let text = "abcd";
    let glyphs =
        [glyph(0, 1, 0, 10, 0), glyph(1, 2, 10, 10, 0), glyph(2, 3, 20, 10, 0), glyph(3, 4, 30, 10, 0)];
    let run = run_of(text, &glyphs, false);
    let after = |i| Cursor::new_with_affinity(0, i, Affinity::After);
    let before = |i| Cursor::new_with_affinity(0, i, Affinity::Before);
    assert_eq!(run.highlight(after(1), before(3)), Some((10, 20)));
    assert_eq!(run.highlight(after(0), before(4)), Some((0, 40)));
    assert_eq!(run.highlight(after(2), after(2)), Some((20, 0)));
    assert_eq!(run.highlight(Cursor::new(1, 0), Cursor::new(1, 9)), None);
    assert_eq!(run.highlight(after(3), after(1)), None);
    // A selection that starts on an earlier line and ends on a later one.
    let run_on_line_one = text_layout::LayoutRun { line_i: 1, ..run };
    assert_eq!(run_on_line_one.highlight(Cursor::new(0, 2), Cursor::new(2, 0)), Some((0, 40)));
    let empty = run_of("", &[], false);
    assert_eq!(empty.highlight(after(0), before(4)), None);
}

#[test]
fn highlight_in_a_run_that_reads_right_to_left() {
    let text = "אב";
    let glyphs = [glyph(2, 4, 0, 10, 1), glyph(0, 2, 10, 10, 1)];
    let run = run_of(text, &glyphs, true);
    let after = |i| Cursor::new_with_affinity(0, i, Affinity::After);
    let before = |i| Cursor::new_with_affinity(0, i, Affinity::Before);
    assert_eq!(run.highlight(after(0), before(4)), Some((0, 20)));
    assert_eq!(run.highlight(after(0), before(2)), Some((10, 10)));
}

#[test]
fn hit_divides_a_glyph_evenly() {
    // Three clusters in a glyph ten units wide: the parts meet at a third
    // and at two thirds of the width.
    let text = "abc";
    let glyphs = [glyph(0, 3, 0, 10, 0)];
    let runs = vec![run_of(text, &glyphs, false)];
    let hit = |x: i64| hit_runs(&runs, x, 3).map(|h: Hit| (h.cursor.index, h.cursor.affinity));
    assert_eq!(hit(0), Some((0, Affinity::After)));
    assert_eq!(hit(1), Some((0, Affinity::After)));
    assert_eq!(hit(2), Some((1, Affinity::Before)));
    assert_eq!(hit(3), Some((1, Affinity::Before)));
    assert_eq!(hit(4), Some((1, Affinity::After)));
    assert_eq!(hit(5), Some((2, Affinity::Before)));
    assert_eq!(hit(6), Some((2, Affinity::Before)));
    assert_eq!(hit(7), Some((2, Affinity::After)));
    assert_eq!(hit(8), Some((2, Affinity::After)));
    assert_eq!(hit(9), Some((3, Affinity::Before)));
    assert_eq!(hit(10), Some((3, Affinity::Before)));
}

#[test]
fn hit_finds_the_middle_of_a_glyph_of_odd_width() {
    let text = "a";
    let glyphs = [glyph(0, 1, 0, 5, 0)];
    let runs = vec![run_of(text, &glyphs, false)];
    let hit = |x: i64| hit_runs(&runs, x, 3).map(|h: Hit| (h.cursor.index, h.cursor.affinity));
    assert_eq!(hit(2), Some((0, Affinity::After)));
    assert_eq!(hit(3), Some((1, Affinity::Before)));
}

#[test]
fn hit_glyph_takes_any_point() {
    let g = glyph(4, 6, 10, 8, 0);
    let graphemes = vec![(0usize, 1usize), (1, 1)];
    assert_eq!(text_layout::hit::hit_glyph(&g, &graphemes, 2, 10), (0, false));
    assert_eq!(text_layout::hit::hit_glyph(&g, &graphemes, 2, 12), (1, true));
    assert_eq!(text_layout::hit::hit_glyph(&g, &graphemes, 2, 15), (1, false));
    assert_eq!(text_layout::hit::hit_glyph(&g, &graphemes, 2, 18), (2, true));
    // Beside the glyph, its halves decide.
    assert_eq!(text_layout::hit::hit_glyph(&g, &graphemes, 2, 5), (0, false));
    assert_eq!(text_layout::hit::hit_glyph(&g, &graphemes, 2, 500), (2, true));
    assert_eq!(text_layout::hit::hit_glyph(&g, &graphemes, 2, i64::MIN), (0, false));
    assert_eq!(text_layout::hit::hit_glyph(&g, &graphemes, 2, i64::MAX), (2, true));
    // Without grapheme clusters, the halves of the glyph decide as well.
    assert_eq!(text_layout::hit::hit_glyph(&g, &Vec::new(), 0, 13), (0, false));
    assert_eq!(text_layout::hit::hit_glyph(&g, &Vec::new(), 0, 14), (0, true));
}

#[test]
fn copy_of_a_buffer_is_independent() {
    let mut shaper = FixedShaper::new();
    let mut buffer = buffer_with(&mut shaper, "ab\ncd");
    buffer.set_scroll(1);
    let copy = buffer.clone();
    buffer.set_text(&mut shaper, "x", AttrsList::new(Attrs::new()));
    assert_eq!(line_texts(&copy), vec!["ab", "cd"]);
    assert_eq!(copy.scroll(), 1);
    assert_eq!(copy.wrap(), Wrap::Word);
    assert_eq!(copy.lines[1].cache_state(), LineState::Wrapped);
    assert_eq!(copy.runs().len(), 1);
    assert_eq!(copy.runs()[0].glyphs.len(), 2);
    assert_eq!(copy.lines[0].shape_opt().as_ref().unwrap().runs[0].glyphs.len(), 2);
}

#[test]
fn layout_of_no_lines_becomes_one_empty_line() {
    let lines = text_layout::layout::at_least_one_line(Vec::new());
    assert_eq!(lines.len(), 1);
    assert!(lines[0].glyphs.is_empty());
    let kept = text_layout::layout::at_least_one_line(vec![
        LayoutLine {
            w: 3,
            glyphs: vec![glyph(0, 1, 0, 3, 0)],
            line_ascent: 1,
            line_descent: 1,
            glyph_ascent: 1,
            glyph_descent: 1,
        },
        LayoutLine::empty(),
    ]);
    assert_eq!(kept.len(), 2);
    assert_eq!(kept[0].w, 3);
    assert_eq!(kept[0].glyphs.len(), 1);
}

#[test]
fn hit_on_a_shared_edge_in_text_that_reads_right_to_left() {
    let text = "אב";
    let glyphs = [glyph(2, 4, 0, 10, 1), glyph(0, 2, 10, 10, 1)];
    let runs = vec![run_of(text, &glyphs, true)];
    // The edge belongs to the glyph that starts there; its left half lies
    // towards the next character.
    assert_eq!(
        hit_runs(&runs, 10, 3).map(|h: Hit| (h.cursor.index, h.cursor.affinity, h.is_inside)),
        Some((2, Affinity::Before, true))
    );
}

#[test]
fn layout_is_kept_for_the_width_and_wrap_of_the_buffer() {
    let mut shaper = FixedShaper::new();
    let mut buffer = buffer_with(&mut shaper, "abcdef\ngh");
    buffer.set_size(&mut shaper, 30, 100);
    assert_eq!(buffer.lines[0].layout_opt().as_ref().unwrap().len(), 2);
    buffer.lines[1].reset();
    assert_eq!(buffer.shape_until(&mut shaper, 5), 3);
    assert_eq!(buffer.lines[1].layout_opt().as_ref().unwrap().len(), 1);
    buffer.set_size(&mut shaper, 10, 100);
    assert_eq!(buffer.lines[0].layout_opt().as_ref().unwrap().len(), 6);
    assert_eq!(buffer.lines[1].layout_opt().as_ref().unwrap().len(), 2);
    buffer.set_wrap(&mut shaper, Wrap::Off);
    assert_eq!(buffer.lines[0].layout_opt().as_ref().unwrap().len(), 1);
    assert_eq!(buffer.lines[1].layout_opt().as_ref().unwrap().len(), 1);
}

#[test]
fn view_is_laid_out_only_as_far_as_it_reaches() {
    let mut shaper = FixedShaper::new();
    let mut buffer = buffer_with(&mut shaper, "a\nb\nc\nd\ne\nf");
    buffer.set_size(&mut shaper, 100, 25);
    for line in buffer.lines.iter_mut() {
        line.reset();
    }
    let shaped = shaper.shaped;
    buffer.shape_until_scroll(&mut shaper);
    // Two layout lines fit; the third reaches below the view.
    assert_eq!(shaper.shaped - shaped, 3);
    let states: Vec<LineState> = buffer.lines.iter().map(|l| l.cache_state()).collect();
    assert_eq!(states[..3], [LineState::Wrapped; 3]);
    assert_eq!(states[3..], [LineState::Unshaped; 3]);
    assert_eq!(buffer.runs().len(), 2);
    // A new text is laid out as far as the view reaches, too.
    let shaped = shaper.shaped;
    buffer.set_text(&mut shaper, "1\n2\n3\n4\n5", AttrsList::new(Attrs::new()));
    assert_eq!(shaper.shaped - shaped, 3);
    assert_eq!(buffer.lines[3].cache_state(), LineState::Unshaped);
    assert_eq!(buffer.scroll(), 0);
}

#[test]
fn view_that_is_scrolled_is_laid_out_behind_the_scroll_offset() {
    let mut shaper = FixedShaper::new();
    let mut buffer = buffer_with(&mut shaper, "a\nb\nc\nd\ne\nf");
    buffer.set_size(&mut shaper, 100, 15);
    buffer.set_scroll(2);
    for line in buffer.lines.iter_mut() {
        line.reset();
    }
    buffer.shape_until_scroll(&mut shaper);
    // Two lines are scrolled past, one fits, the next reaches below.
    let wrapped = buffer.lines.iter().filter(|l| l.cache_state() == LineState::Wrapped).count();
    assert_eq!(wrapped, 4);
    assert_eq!(buffer.scroll(), 2);
    let runs = buffer.runs();
    assert_eq!(runs.len(), 1);
    assert_eq!(runs[0].line_i, 2);
}

#[test]
fn scroll_offset_behind_the_text_is_moved_to_the_last_line() {
    let mut shaper = FixedShaper::new();
    let mut buffer = buffer_with(&mut shaper, "a\nb\nc");
    buffer.set_size(&mut shaper, 100, 15);
    for line in buffer.lines.iter_mut() {
        line.reset();
    }
    // Nothing is laid out: no offset but 0 is in range.
    buffer.set_scroll(2);
    assert_eq!(buffer.scroll(), 0);
    buffer.shape_until(&mut shaper, 100);
    buffer.set_scroll(7);
    assert_eq!(buffer.scroll(), 2);
    buffer.shape_until_scroll(&mut shaper);
    assert_eq!(buffer.scroll(), 2);
}

#[test]
fn shape_until_cursor_scrolls_down_to_the_cursor() {
    let mut shaper = FixedShaper::new();
    let mut buffer = buffer_with(&mut shaper, "a\nb\nc\nd\ne\nf");
    buffer.set_size(&mut shaper, 100, 25);
    assert_eq!(buffer.scroll(), 0);
    // Line 4 lies below the view; it becomes the last of the two lines in view.
    buffer.shape_until_cursor(&mut shaper, Cursor::new_with_affinity(4, 0, Affinity::After));
    assert_eq!(buffer.scroll(), 3);
    let runs = buffer.runs();
    assert_eq!(runs.len(), 2);
    assert_eq!((runs[0].line_i, runs[1].line_i), (3, 4));
    // A cursor in view leaves the view where it is.
    buffer.shape_until_cursor(&mut shaper, Cursor::new_with_affinity(3, 0, Affinity::After));
    assert_eq!(buffer.scroll(), 3);
    buffer.shape_until_cursor(&mut shaper, Cursor::new_with_affinity(5, 1, Affinity::Before));
    assert_eq!(buffer.scroll(), 4);
    buffer.shape_until_cursor(&mut shaper, Cursor::new_with_affinity(1, 0, Affinity::After));
    assert_eq!(buffer.scroll(), 1);
}

#[test]
fn shape_until_cursor_puts_a_line_that_does_not_fit_on_top() {
    let mut shaper = FixedShaper::new();
    let mut buffer = buffer_with(&mut shaper, "a\nb\nc");
    buffer.set_size(&mut shaper, 100, 5);
    buffer.shape_until_cursor(&mut shaper, Cursor::new_with_affinity(2, 0, Affinity::After));
    assert_eq!(buffer.scroll(), 2);
    assert_eq!(buffer.runs().len(), 0);
}

#[test]
fn shape_until_cursor_scrolls_within_a_wrapped_line() {
    let mut shaper = FixedShaper::new();
    let mut buffer = buffer_with(&mut shaper, "abcdefgh\nij");
    buffer.set_size(&mut shaper, 20, 20);
    // Layout lines: ab, cd, ef, gh, ij. The cursor in front of g lies on the fourth.
    buffer.shape_until_cursor(&mut shaper, Cursor::new_with_affinity(0, 6, Affinity::After));
    assert_eq!(buffer.scroll(), 2);
    let runs = buffer.runs();
    assert_eq!(runs.len(), 2);
    assert_eq!(runs[1].glyphs[0].start, 6);
}

#[test]
fn buffer_tests_its_invariant() {
    let mut shaper = FixedShaper::new();
    let mut buffer = buffer_with(&mut shaper, "abcd\nef");
    buffer.set_size(&mut shaper, 20, 100);
    assert!(buffer.is_well_formed());
    assert_eq!(buffer.lines[0].layout_asked_for(), Some((20, Wrap::Word)));
    buffer.lines[1].reset();
    assert!(buffer.is_well_formed());
    assert_eq!(buffer.lines[1].layout_asked_for(), None);
    // A layout for another width is not one of this buffer.
    buffer.lines[0].reset_layout();
    buffer.lines[0].layout(&mut shaper, 40, Wrap::Word);
    assert!(!buffer.is_well_formed());
    buffer.lines[0].reset_layout();
    buffer.lines[0].layout(&mut shaper, 20, Wrap::Off);
    assert!(!buffer.is_well_formed());
    buffer.lines[0].reset_layout();
    assert!(buffer.is_well_formed());
    buffer.lines.clear();
    assert!(!buffer.is_well_formed());
}
