//! How a text is cut into lines at line feeds.

use vstd::prelude::*;
use vstd::string::*;
use vstd::utf8::*;

verus! {

/// The line feed byte.
pub const LF: u8 = 10;

/// The carriage return byte.
pub const CR: u8 = 13;

/// Offset of the first line feed in `bytes`; the length of `bytes` if it holds none.
pub open spec fn line_end(bytes: Seq<u8>) -> int
    decreases bytes.len(),
{
    if bytes.len() == 0 || bytes[0] == LF {
        0
    } else {
        1 + line_end(bytes.drop_first())
    }
}

/// What follows the first line of `bytes`: the bytes behind the first line
/// feed, and nothing if there is no line feed.
pub open spec fn after_first_line(bytes: Seq<u8>) -> Seq<u8> {
    if 0 <= line_end(bytes) < bytes.len() {
        bytes.subrange(line_end(bytes) + 1, bytes.len() as int)
    } else {
        Seq::empty()
    }
}

/// The lines of `bytes` as they stand between line feeds, each without its
/// line feed. A line feed parts two lines: a text that ends in a line feed
/// ends in an empty line, and empty text is one empty line.
pub open spec fn raw_lines(bytes: Seq<u8>) -> Seq<Seq<u8>>
    decreases bytes.len(),
{
    if 0 <= line_end(bytes) < bytes.len() {
        seq![bytes.subrange(0, line_end(bytes))] + raw_lines(after_first_line(bytes))
    } else {
        seq![bytes]
    }
}

/// `line` without a carriage return at its end.
pub open spec fn strip_cr(line: Seq<u8>) -> Seq<u8> {
    if line.len() > 0 && line.last() == CR {
        line.drop_last()
    } else {
        line
    }
}

/// The text of each line of `bytes`: what stands between line feeds,
/// without a carriage return in front of the line feed.
pub open spec fn text_lines(bytes: Seq<u8>) -> Seq<Seq<u8>> {
    raw_lines(bytes).map_values(|line: Seq<u8>| strip_cr(line))
}

/// Offset in the text at which line `i` starts: every line in front of it
/// takes its bytes and one line feed.
pub open spec fn line_start(bytes: Seq<u8>, i: int) -> int
    decreases i,
{
    if i <= 0 {
        0
    } else {
        line_start(bytes, i - 1) + raw_lines(bytes)[i - 1].len() + 1
    }
}

/// Number of line feeds in `bytes`.
pub open spec fn count_lf(bytes: Seq<u8>) -> int
    decreases bytes.len(),
{
    if bytes.len() == 0 {
        0
    } else {
        (if bytes[0] == LF {
            1int
        } else {
            0int
        }) + count_lf(bytes.drop_first())
    }
}

/// The first line ends within the text, at a line feed or at the end, and
/// holds no line feed.
pub proof fn line_end_is_first_lf(bytes: Seq<u8>)
    ensures
        0 <= line_end(bytes) <= bytes.len(),
        line_end(bytes) < bytes.len() ==> bytes[line_end(bytes)] == LF,
        forall|i: int| 0 <= i < line_end(bytes) ==> bytes[i] != LF,
    decreases bytes.len(),
{
    if bytes.len() == 0 || bytes[0] == LF {
    } else {
        let rest = bytes.drop_first();
        line_end_is_first_lf(rest);
        assert forall|i: int| 0 <= i < line_end(bytes) implies bytes[i] != LF by {
            if i > 0 {
                assert(bytes[i] == rest[i - 1]);
            }
        }
    }
}

/// An offset at which a line feed stands, with none in front of it, or the
/// length of a text without line feed, is the end of the first line.
pub proof fn first_lf_is_line_end(bytes: Seq<u8>, e: int)
    requires
        0 <= e <= bytes.len(),
        e < bytes.len() ==> bytes[e] == LF,
        forall|i: int| 0 <= i < e ==> bytes[i] != LF,
    ensures
        line_end(bytes) == e,
{
    line_end_is_first_lf(bytes);
    let f = line_end(bytes);
    if f < e {
        assert(bytes[f] != LF);
    } else if e < f {
        assert(bytes[e] != LF);
    }
}

/// Line feeds counted in two parts of a text add up.
proof fn count_lf_split(bytes: Seq<u8>, at: int)
    requires
        0 <= at <= bytes.len(),
    ensures
        count_lf(bytes) == count_lf(bytes.subrange(0, at)) + count_lf(
            bytes.subrange(at, bytes.len() as int),
        ),
    decreases at,
{
    if at == 0 {
        assert(bytes.subrange(0, bytes.len() as int) =~= bytes);
    } else {
        let rest = bytes.drop_first();
        count_lf_split(rest, at - 1);
        assert(bytes.subrange(0, at).drop_first() =~= rest.subrange(0, at - 1));
        assert(bytes.subrange(at, bytes.len() as int) =~= rest.subrange(
            at - 1,
            rest.len() as int,
        ));
    }
}

/// A part of a text without line feed counts none.
proof fn count_lf_none(bytes: Seq<u8>)
    requires
        forall|i: int| 0 <= i < bytes.len() ==> bytes[i] != LF,
    ensures
        count_lf(bytes) == 0,
    decreases bytes.len(),
{
    if bytes.len() > 0 {
        let rest = bytes.drop_first();
        assert forall|i: int| 0 <= i < rest.len() implies rest[i] != LF by {
            assert(rest[i] == bytes[i + 1]);
        }
        count_lf_none(rest);
    }
}

/// A text has one line more than it has line feeds.
pub proof fn line_count(bytes: Seq<u8>)
    ensures
        raw_lines(bytes).len() == count_lf(bytes) + 1,
        text_lines(bytes).len() == count_lf(bytes) + 1,
    decreases bytes.len(),
{
    let e = line_end(bytes);
    line_end_is_first_lf(bytes);
    count_lf_split(bytes, e);
    count_lf_none(bytes.subrange(0, e));
    if e < bytes.len() {
        let rest = after_first_line(bytes);
        line_count(rest);
        let tail = bytes.subrange(e, bytes.len() as int);
        assert(tail.drop_first() =~= rest);
        assert(tail[0] == LF);
    } else {
        assert(bytes.subrange(e, bytes.len() as int) =~= Seq::<u8>::empty());
    }
}

/// The lines `lines` with a line feed between each two of them.
pub open spec fn joined(lines: Seq<Seq<u8>>) -> Seq<u8>
    decreases lines.len(),
{
    if lines.len() == 0 {
        Seq::empty()
    } else if lines.len() == 1 {
        lines[0]
    } else {
        lines[0] + seq![LF] + joined(lines.drop_first())
    }
}

/// The lines of a text make up the text: joined by line feeds, they are
/// the text again.
pub proof fn lines_rejoin(bytes: Seq<u8>)
    ensures
        joined(raw_lines(bytes)) == bytes,
    decreases bytes.len(),
{
    let e = line_end(bytes);
    line_end_is_first_lf(bytes);
    if e < bytes.len() {
        let first = bytes.subrange(0, e);
        let rest = after_first_line(bytes);
        lines_rejoin(rest);
        line_count(rest);
        let lines = raw_lines(bytes);
        assert(lines == seq![first] + raw_lines(rest));
        assert(lines.drop_first() =~= raw_lines(rest));
        assert(lines[0] == first);
        assert(bytes =~= first + seq![LF] + rest);
    }
}

/// No line of a text holds a line feed.
pub proof fn lines_hold_no_lf(bytes: Seq<u8>, i: int)
    requires
        0 <= i < raw_lines(bytes).len(),
    ensures
        forall|k: int| 0 <= k < raw_lines(bytes)[i].len() ==> raw_lines(bytes)[i][k] != LF,
        forall|k: int| 0 <= k < text_lines(bytes)[i].len() ==> text_lines(bytes)[i][k] != LF,
    decreases bytes.len(),
{
    line_end_is_first_lf(bytes);
    if line_end(bytes) < bytes.len() {
        let first = bytes.subrange(0, line_end(bytes));
        let rest = raw_lines(after_first_line(bytes));
        assert(raw_lines(bytes) == seq![first] + rest);
        if i > 0 {
            lines_hold_no_lf(after_first_line(bytes), i - 1);
            assert(raw_lines(bytes)[i] == rest[i - 1]);
        } else {
            assert(raw_lines(bytes)[0] == first);
        }
    }
}

/// Every line of a text starts within the text or at its end, and the
/// line with its line feed, if it is not the last, ends there too.
pub proof fn lines_lie_in_text(bytes: Seq<u8>, i: int)
    requires
        0 <= i < raw_lines(bytes).len(),
    ensures
        0 <= line_start(bytes, i),
        line_start(bytes, i) + raw_lines(bytes)[i].len() <= bytes.len(),
        i < raw_lines(bytes).len() - 1 ==> line_start(bytes, i + 1) <= bytes.len(),
        raw_lines(bytes)[i] == bytes.subrange(
            line_start(bytes, i),
            line_start(bytes, i) + raw_lines(bytes)[i].len(),
        ),
    decreases bytes.len(),
{
    line_end_is_first_lf(bytes);
    let e = line_end(bytes);
    if e < bytes.len() {
        let first = bytes.subrange(0, e);
        let tail = after_first_line(bytes);
        let rest = raw_lines(tail);
        assert(raw_lines(bytes) == seq![first] + rest);
        assert(raw_lines(bytes)[0] == first);
        if i > 0 {
            lines_lie_in_text(tail, i - 1);
            line_start_shifts(bytes, i);
            if i < raw_lines(bytes).len() - 1 {
                line_start_shifts(bytes, i + 1);
            }
            assert(raw_lines(bytes)[i] == rest[i - 1]);
            assert(tail.subrange(
                line_start(tail, i - 1),
                line_start(tail, i - 1) + rest[i - 1].len(),
            ) =~= bytes.subrange(
                line_start(bytes, i),
                line_start(bytes, i) + raw_lines(bytes)[i].len(),
            ));
        } else {
            assert(line_start(bytes, 1) == e + 1);
            assert(first =~= bytes.subrange(0, first.len() as int));
        }
    } else {
        assert(bytes =~= bytes.subrange(0, bytes.len() as int));
    }
}

/// A line behind the first starts where it starts in what follows the
/// first line, moved by the first line and its line feed.
proof fn line_start_shifts(bytes: Seq<u8>, i: int)
    requires
        0 <= line_end(bytes) < bytes.len(),
        1 <= i <= raw_lines(after_first_line(bytes)).len(),
    ensures
        line_start(bytes, i) == line_end(bytes) + 1 + line_start(after_first_line(bytes), i - 1),
    decreases i,
{
    let first = bytes.subrange(0, line_end(bytes));
    let tail = after_first_line(bytes);
    assert(raw_lines(bytes) == seq![first] + raw_lines(tail));
    assert(raw_lines(bytes)[0] == first);
    assert(first.len() == line_end(bytes));
    assert(line_start(bytes, i) == line_start(bytes, i - 1) + raw_lines(bytes)[i - 1].len() + 1);
    if i > 1 {
        line_start_shifts(bytes, i - 1);
        assert(raw_lines(bytes)[i - 1] == raw_lines(tail)[i - 2]);
        assert(line_start(tail, i - 1) == line_start(tail, i - 2) + raw_lines(tail)[i - 2].len()
            + 1);
    } else {
        assert(line_start(bytes, 0) == 0);
        assert(line_start(tail, 0) == 0);
    }
}

/// Cuts the first line off a text. Returns the line without its
/// terminator, the length of the line with a carriage return counted, and
/// what follows the line feed, if there is one.
pub fn first_line(text: &str) -> (cut: (&str, usize, Option<&str>))
    ensures
        text.spec_bytes().len() <= usize::MAX,
        cut.1 == line_end(text.spec_bytes()),
        cut.0.spec_bytes() == strip_cr(text.spec_bytes().subrange(0, cut.1 as int)),
        cut.1 < text.spec_bytes().len() ==> cut.2 is Some && cut.2->0.spec_bytes()
            == after_first_line(text.spec_bytes()),
        cut.1 >= text.spec_bytes().len() ==> cut.2 is None,
{
    broadcast use group_utf8_lib;

    let bytes = text.as_bytes();
    let ghost b = text.spec_bytes();
    let mut end: usize = 0;
    while end < bytes.len() && bytes[end] != LF
        invariant
            bytes@ == b,
            end <= bytes.len(),
            forall|i: int| 0 <= i < end ==> b[i] != LF,
        decreases bytes.len() - end,
    {
        end += 1;
    }
    proof {
        first_lf_is_line_end(b, end as int);
        assert(valid_utf8(b));
        if end < b.len() {
            assert(!is_continuation_byte(b[end as int]));
        }
        assert(is_char_boundary(b, end as int));
    }
    let (raw, tail) = text.split_at(end);
    let ghost r = raw.spec_bytes();
    let line = if end > 0 && bytes[end - 1] == CR {
        proof {
            assert(r[end - 1] == b[end - 1]);
            assert(valid_utf8(r));
            assert(!is_continuation_byte(r[end - 1]));
            assert(is_char_boundary(r, end - 1));
        }
        let (stripped, _cr) = raw.split_at(end - 1);
        proof {
            assert(stripped.spec_bytes() =~= strip_cr(r));
        }
        stripped
    } else {
        raw
    };
    if end < bytes.len() {
        proof {
            let t = tail.spec_bytes();
            assert(t[0] == b[end as int]);
            assert(valid_utf8(t));
            if t.len() > 1 {
                assert(t[1] == b[end + 1]);
                // The byte behind a line feed starts a character: the line
                // feed is a character by itself.
                assert(is_char_boundary(t, 1)) by {
                    reveal_with_fuel(is_char_boundary, 2);
                    assert(is_leading_byte_width_1(t[0]));
                    assert(length_of_first_scalar(t) == 1);
                }
            } else {
                assert(is_char_boundary(t, t.len() as int));
            }
        }
        let (_lf, rest) = tail.split_at(1);
        proof {
            assert(rest.spec_bytes() =~= after_first_line(b));
        }
        (line, end, Some(rest))
    } else {
        (line, end, None)
    }
}

} // verus!
