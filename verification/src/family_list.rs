//! Lists of font families in text form, as style sheets write them:
//! names separated by commas, a name optionally in quotes.

use vstd::prelude::*;
use vstd::string::*;
use vstd::utf8::*;
use crate::family::{family_views, FamilyOwned, FamilyView};
use crate::graphemes::{cluster, cluster_text};

verus! {

/// Whether a character is white space, as Unicode defines it by the
/// property `White_Space`.
pub uninterp spec fn is_white_space(c: char) -> bool;

/// Number of characters of white space at the start of `text`.
pub open spec fn leading_space(text: Seq<char>) -> int
    decreases text.len(),
{
    if text.len() > 0 && is_white_space(text[0]) {
        1 + leading_space(text.drop_first())
    } else {
        0
    }
}

/// Number of characters of white space at the end of `text`.
pub open spec fn trailing_space(text: Seq<char>) -> int
    decreases text.len(),
{
    if text.len() > 0 && is_white_space(text.last()) {
        1 + trailing_space(text.drop_last())
    } else {
        0
    }
}

/// `text` without white space at its start and at its end.
pub open spec fn trimmed(text: Seq<char>) -> Seq<char> {
    if leading_space(text) >= text.len() {
        Seq::empty()
    } else {
        text.subrange(leading_space(text), text.len() - trailing_space(text))
    }
}

/// `text` with every character in lower case.
pub uninterp spec fn lowercase(text: Seq<char>) -> Seq<char>;

/// `str::trim`: the part of `text` between its leading and its trailing
/// white space, where white space is what has the property `White_Space`
/// of Unicode. The part neither starts nor ends with white space.
#[verifier::external_body]
fn trim(text: &str) -> (part: &str)
    ensures
        part@ == trimmed(text@),
        part@.len() > 0 ==> !is_white_space(part@[0]) && !is_white_space(part@.last()),
{
    text.trim()
}

/// `str::to_lowercase`: `text` with every character mapped to lower case,
/// as Unicode defines the mapping.
#[verifier::external_body]
fn to_lowercase(text: &str) -> (lower: String)
    ensures
        lower@ == lowercase(text@),
{
    text.to_lowercase()
}

pub const COMMA: u8 = 44;

pub const DOUBLE_QUOTE: u8 = 34;

pub const SINGLE_QUOTE: u8 = 39;

/// Whether `byte` is white space of ASCII: space, tab, line feed, form
/// feed or carriage return.
pub open spec fn is_ascii_space(byte: u8) -> bool {
    byte == 32 || byte == 9 || byte == 10 || byte == 12 || byte == 13
}

/// Whether `byte` separates entries: white space or a comma.
pub open spec fn is_separator(byte: u8) -> bool {
    is_ascii_space(byte) || byte == COMMA
}

/// The first offset from `pos` on at which no separator stands; the
/// length of `bytes` if only separators follow.
pub open spec fn skip_separators(bytes: Seq<u8>, pos: int) -> int
    decreases bytes.len() - pos,
{
    if pos < 0 || pos >= bytes.len() || !is_separator(bytes[pos]) {
        pos
    } else {
        skip_separators(bytes, pos + 1)
    }
}

/// The first offset from `pos` on at which `byte` stands; the length of
/// `bytes` if it does not occur.
pub open spec fn find_byte(bytes: Seq<u8>, byte: u8, pos: int) -> int
    decreases bytes.len() - pos,
{
    if pos < 0 || pos >= bytes.len() {
        bytes.len() as int
    } else if bytes[pos] == byte {
        pos
    } else {
        find_byte(bytes, byte, pos + 1)
    }
}

/// Where the separators end, no separator stands, and only separators
/// stand in front of it.
pub proof fn skip_separators_is_first(bytes: Seq<u8>, pos: int)
    requires
        0 <= pos <= bytes.len(),
    ensures
        pos <= skip_separators(bytes, pos) <= bytes.len(),
        skip_separators(bytes, pos) < bytes.len() ==> !is_separator(
            bytes[skip_separators(bytes, pos)],
        ),
        forall|i: int| pos <= i < skip_separators(bytes, pos) ==> is_separator(#[trigger] bytes[i]),
    decreases bytes.len() - pos,
{
    if pos < bytes.len() && is_separator(bytes[pos]) {
        skip_separators_is_first(bytes, pos + 1);
    }
}

/// Where a byte is found, it stands, and it does not stand in front of it.
pub proof fn find_byte_is_first(bytes: Seq<u8>, byte: u8, pos: int)
    requires
        0 <= pos <= bytes.len(),
    ensures
        pos <= find_byte(bytes, byte, pos) <= bytes.len(),
        find_byte(bytes, byte, pos) < bytes.len() ==> bytes[find_byte(bytes, byte, pos)] == byte,
        forall|i: int| pos <= i < find_byte(bytes, byte, pos) ==> #[trigger] bytes[i] != byte,
    decreases bytes.len() - pos,
{
    if pos < bytes.len() && bytes[pos] != byte {
        find_byte_is_first(bytes, byte, pos + 1);
    }
}

/// An entry of a list: where its text starts and ends, where the next
/// entry is looked for, and whether the entry is quoted.
pub struct Entry {
    pub start: int,
    pub end: int,
    pub next: int,
    pub quoted: bool,
}

/// The entry that starts at `pos`. An entry that starts with a quote
/// holds what follows up to the same quote, or up to the end of the list.
/// Any other entry reaches up to the next comma, or to the end.
pub open spec fn entry_at(bytes: Seq<u8>, pos: int) -> Entry {
    let quoted = bytes[pos] == DOUBLE_QUOTE || bytes[pos] == SINGLE_QUOTE;
    let end = if quoted {
        find_byte(bytes, bytes[pos], pos + 1)
    } else {
        find_byte(bytes, COMMA, pos)
    };
    Entry {
        start: if quoted {
            pos + 1
        } else {
            pos
        },
        end,
        next: if end < bytes.len() {
            end + 1
        } else {
            end
        },
        quoted,
    }
}

/// The family that an entry names, given its text without the white space
/// around it and the same text in lower case. A quoted entry is a name. An
/// entry without quotes is a generic family if, in lower case, it is the
/// keyword of one, and a name otherwise.
pub open spec fn named_family(name: Seq<char>, lower: Seq<char>, quoted: bool) -> FamilyView {
    if quoted {
        FamilyView::Name(name)
    } else if lower == "serif"@ {
        FamilyView::Serif
    } else if lower == "sans-serif"@ {
        FamilyView::SansSerif
    } else if lower == "monospace"@ {
        FamilyView::Monospace
    } else if lower == "cursive"@ {
        FamilyView::Cursive
    } else if lower == "fantasy"@ {
        FamilyView::Fantasy
    } else {
        FamilyView::Name(name)
    }
}

/// The family that the text of an entry names. White space around the
/// text does not count, and keywords are told in any case.
pub open spec fn family_of(text: Seq<char>, quoted: bool) -> FamilyView {
    named_family(trimmed(text), lowercase(trimmed(text)), quoted)
}

/// The families that `text` lists from byte `pos` on. The list ends at an
/// entry whose bounds are not bounds of characters.
pub open spec fn families_from(text: Seq<char>, pos: int) -> Seq<FamilyView>
    decreases encode_utf8(text).len() - pos,
{
    let bytes = encode_utf8(text);
    let at = skip_separators(bytes, pos);
    if pos < 0 || at < pos || at >= bytes.len() {
        Seq::empty()
    } else {
        let entry = entry_at(bytes, at);
        match cluster_text(text, entry.start, entry.end) {
            Some(part) => if entry.next > at {
                seq![family_of(part, entry.quoted)] + families_from(text, entry.next)
            } else {
                seq![family_of(part, entry.quoted)]
            },
            None => Seq::empty(),
        }
    }
}

/// In UTF-8 text, what follows a character of one byte starts a
/// character or is the end of the text.
proof fn boundary_behind_ascii(bytes: Seq<u8>, i: int)
    requires
        valid_utf8(bytes),
        0 <= i < bytes.len(),
        is_char_boundary(bytes, i),
        bytes[i] <= 0x7f,
    ensures
        is_char_boundary(bytes, i + 1),
{
    if i + 1 < bytes.len() {
        valid_utf8_split(bytes, i);
        let tail = bytes.subrange(i, bytes.len() as int);
        assert(tail[0] == bytes[i]);
        assert(tail[1] == bytes[i + 1]);
        assert(is_char_boundary(tail, 1)) by {
            reveal_with_fuel(is_char_boundary, 2);
            assert(is_leading_byte_width_1(tail[0]));
            assert(length_of_first_scalar(tail) == 1);
        }
        is_char_boundary_iff_not_is_continuation_byte(tail, 1);
        is_char_boundary_iff_not_is_continuation_byte(bytes, i + 1);
    } else {
        is_char_boundary_start_end_of_seq(bytes);
    }
}

/// Separators are characters of one byte: where they end, a character
/// starts or the text ends.
proof fn separators_end_at_boundary(bytes: Seq<u8>, pos: int)
    requires
        valid_utf8(bytes),
        0 <= pos <= bytes.len(),
        is_char_boundary(bytes, pos),
    ensures
        is_char_boundary(bytes, skip_separators(bytes, pos)),
    decreases bytes.len() - pos,
{
    if pos < bytes.len() && is_separator(bytes[pos]) {
        boundary_behind_ascii(bytes, pos);
        separators_end_at_boundary(bytes, pos + 1);
    }
}

/// Every entry of a list is text. Let the list be read from `pos` on,
/// where a character starts; reading starts at offset 0 and goes on where
/// each entry says. Then the bounds of the entry found are bounds of
/// characters, so that its text is there, and the reading goes on behind
/// the entry at the start of a character: no list ends at an entry whose
/// text cannot be taken.
pub proof fn entries_are_text(text: Seq<char>, pos: int)
    requires
        0 <= pos <= encode_utf8(text).len(),
        is_char_boundary(encode_utf8(text), pos),
    ensures
        ({
            let bytes = encode_utf8(text);
            let at = skip_separators(bytes, pos);
            let entry = entry_at(bytes, at);
            at < bytes.len() ==> {
                &&& cluster_text(text, entry.start, entry.end) is Some
                &&& at < entry.next <= bytes.len()
                &&& is_char_boundary(bytes, entry.next)
            }
        }),
{
    broadcast use group_utf8_lib;

    let bytes = encode_utf8(text);
    assert(valid_utf8(bytes));
    let at = skip_separators(bytes, pos);
    skip_separators_is_first(bytes, pos);
    separators_end_at_boundary(bytes, pos);
    if at < bytes.len() {
        let entry = entry_at(bytes, at);
        let quoted = bytes[at] == DOUBLE_QUOTE || bytes[at] == SINGLE_QUOTE;
        if quoted {
            boundary_behind_ascii(bytes, at);
            find_byte_is_first(bytes, bytes[at], at + 1);
        } else {
            find_byte_is_first(bytes, COMMA, at);
        }
        if entry.end < bytes.len() {
            assert(bytes[entry.end] <= 0x7f);
            is_char_boundary_iff_not_is_continuation_byte(bytes, entry.end);
            assert(!is_continuation_byte(bytes[entry.end]));
            boundary_behind_ascii(bytes, entry.end);
        } else {
            is_char_boundary_start_end_of_seq(bytes);
        }
    }
}

/// The families that `text` lists.
pub open spec fn listed_families(text: Seq<char>) -> Seq<FamilyView> {
    families_from(text, 0)
}

/// Decides whether two texts are the same.
fn same_text(a: &str, b: &str) -> (same: bool)
    ensures
        same == (a@ == b@),
{
    broadcast use group_utf8_lib;

    let x = a.as_bytes();
    let y = b.as_bytes();
    if x.len() != y.len() {
        return false;
    }
    let mut i: usize = 0;
    while i < x.len()
        invariant
            i <= x.len(),
            x.len() == y.len(),
            x@ == a.spec_bytes(),
            y@ == b.spec_bytes(),
            forall|j: int| 0 <= j < i ==> x@[j] == y@[j],
        decreases x.len() - i,
    {
        if x[i] != y[i] {
            return false;
        }
        i += 1;
    }
    proof {
        assert(x@ =~= y@);
        assert(decode_utf8(encode_utf8(a@)) == a@);
        assert(decode_utf8(encode_utf8(b@)) == b@);
    }
    true
}

/// The family that an entry names, from its text without the white space
/// around it and the same text in lower case.
pub fn family_for(name: &str, lower: &str, quoted: bool) -> (family: FamilyOwned)
    ensures
        family@ == named_family(name@, lower@, quoted),
{
    if quoted {
        FamilyOwned::Name(name.to_owned())
    } else if same_text(lower, "serif") {
        FamilyOwned::Serif
    } else if same_text(lower, "sans-serif") {
        FamilyOwned::SansSerif
    } else if same_text(lower, "monospace") {
        FamilyOwned::Monospace
    } else if same_text(lower, "cursive") {
        FamilyOwned::Cursive
    } else if same_text(lower, "fantasy") {
        FamilyOwned::Fantasy
    } else {
        FamilyOwned::Name(name.to_owned())
    }
}

/// The family that the text of an entry names.
fn family_from_text(text: &str, quoted: bool) -> (family: FamilyOwned)
    ensures
        family@ == family_of(text@, quoted),
{
    let name = trim(text);
    let lower = to_lowercase(name);
    family_for(name, lower.as_str(), quoted)
}

/// A reader of a list of families, entry by entry.
#[derive(Clone, Copy, Debug)]
pub struct ParseList<'a> {
    source: &'a str,
    pos: usize,
}

impl<'a> ParseList<'a> {
    /// The invariant of a reader: it stands within its text.
    pub closed spec fn wf(self) -> bool {
        self.pos <= self.source.spec_bytes().len()
    }

    /// The families that the reader has not given out yet.
    pub closed spec fn remaining(self) -> Seq<FamilyView> {
        families_from(self.source@, self.pos as int)
    }

    /// A reader at the start of `source`.
    pub fn new(source: &'a str) -> (list: ParseList<'a>)
        ensures
            list.wf(),
            list.remaining() == listed_families(source@),
    {
        ParseList { source, pos: 0 }
    }

    /// The next family of the list, if there is one.
    pub fn next(&mut self) -> (family: Option<FamilyOwned>)
        requires
            old(self).wf(),
        ensures
            final(self).wf(),
            match family {
                Some(family) => old(self).remaining() == seq![family@] + final(self).remaining(),
                None => old(self).remaining().len() == 0 && final(self).remaining().len() == 0,
            },
    {
        let source = self.source;
        let bytes = source.as_bytes();
        let ghost b = source.spec_bytes();
        let len = bytes.len();
        let ghost from = self.pos as int;
        let mut pos = self.pos;
        while pos < len && (bytes[pos] == 32 || bytes[pos] == 9 || bytes[pos] == 10 || bytes[pos]
            == 12 || bytes[pos] == 13 || bytes[pos] == COMMA)
            invariant
                bytes@ == b,
                len == b.len(),
                from <= pos <= len,
                skip_separators(b, from) == skip_separators(b, pos as int),
            decreases len - pos,
        {
            pos += 1;
        }
        proof {
            // Looking on from where the separators end finds the same entry.
            assert(skip_separators(b, pos as int) == pos);
        }
        self.pos = pos;
        if pos >= len {
            return None;
        }
        let first = bytes[pos];
        let quoted = first == DOUBLE_QUOTE || first == SINGLE_QUOTE;
        let start = if quoted {
            pos + 1
        } else {
            pos
        };
        let wanted = if quoted {
            first
        } else {
            COMMA
        };
        let mut end = start;
        while end < len && bytes[end] != wanted
            invariant
                bytes@ == b,
                len == b.len(),
                start <= end <= len,
                find_byte(b, wanted, start as int) == find_byte(b, wanted, end as int),
            decreases len - end,
        {
            end += 1;
        }
        let next = if end < len {
            end + 1
        } else {
            end
        };
        proof {
            let entry = entry_at(b, pos as int);
            assert(find_byte(b, wanted, end as int) == end);
            assert(entry.start == start && entry.end == end && entry.next == next
                && entry.quoted == quoted);
        }
        match cluster(source, start, end) {
            Some(part) => {
                self.pos = next;
                Some(family_from_text(part, quoted))
            },
            None => None,
        }
    }
}

impl FamilyOwned {
    /// The families that `text` lists, in order.
    pub fn parse_list(text: &str) -> (families: Vec<FamilyOwned>)
        ensures
            family_views(families@) == listed_families(text@),
    {
        let mut list = ParseList::new(text);
        let mut families: Vec<FamilyOwned> = Vec::new();
        loop
            invariant
                list.wf(),
                family_views(families@) + list.remaining() == listed_families(text@),
            ensures
                family_views(families@) == listed_families(text@),
            decreases list.remaining().len(),
        {
            let ghost before = family_views(families@);
            match list.next() {
                Some(family) => {
                    let ghost value = family@;
                    families.push(family);
                    proof {
                        assert(family_views(families@) =~= before + seq![value]);
                        assert((before + seq![value]) + list.remaining() =~= before + (seq![value]
                            + list.remaining()));
                    }
                },
                None => {
                    proof {
                        assert(before + list.remaining() =~= before);
                    }
                    break ;
                },
            }
        }
        families
    }
}

} // verus!
