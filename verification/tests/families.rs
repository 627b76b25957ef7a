use text_layout::family_list::family_for;
use text_layout::{
    Attrs, Color, FaceInfo, FamilyOwned, FontAttrs, FontFallbackIter, LineHeightValue, Missing,
    ParseList, Stretch, Style, Weight,
};

fn name(text: &str) -> FamilyOwned {
    FamilyOwned::Name(text.to_string())
}

#[test]
fn parse_list_reads_names_and_keywords() {
    assert_eq!(
        FamilyOwned::parse_list("Fira Sans, serif"),
        vec![name("Fira Sans"), FamilyOwned::Serif]
    );
    assert_eq!(
        FamilyOwned::parse_list("serif,sans-serif,monospace,cursive,fantasy"),
        vec![
            FamilyOwned::Serif,
            FamilyOwned::SansSerif,
            FamilyOwned::Monospace,
            FamilyOwned::Cursive,
            FamilyOwned::Fantasy
        ]
    );
}

#[test]
fn parse_list_ignores_case_of_keywords() {
    assert_eq!(
        FamilyOwned::parse_list("SERIF, Sans-Serif, MonoSpace"),
        vec![FamilyOwned::Serif, FamilyOwned::SansSerif, FamilyOwned::Monospace]
    );
    // A name keeps its case.
    assert_eq!(FamilyOwned::parse_list("DejaVu Serif"), vec![name("DejaVu Serif")]);
}

#[test]
fn parse_list_trims_white_space() {
    assert_eq!(
        FamilyOwned::parse_list("  Arial  ,\t Noto Sans \n,  serif  "),
        vec![name("Arial"), name("Noto Sans"), FamilyOwned::Serif]
    );
    // White space that is not ASCII is trimmed from an entry as well.
    assert_eq!(FamilyOwned::parse_list("Arial\u{a0}, x"), vec![name("Arial"), name("x")]);
}

#[test]
fn parse_list_reads_quoted_names() {
    assert_eq!(
        FamilyOwned::parse_list("\"Times New Roman\", 'Courier New', serif"),
        vec![name("Times New Roman"), name("Courier New"), FamilyOwned::Serif]
    );
    // A quoted keyword is a name; a comma in quotes belongs to the name.
    assert_eq!(
        FamilyOwned::parse_list("'serif', \"a, b\""),
        vec![name("serif"), name("a, b")]
    );
    // The other quote does not end a quoted name.
    assert_eq!(FamilyOwned::parse_list("\"it's\""), vec![name("it's")]);
    assert_eq!(FamilyOwned::parse_list("' padded '"), vec![name("padded")]);
}

#[test]
fn parse_list_reads_a_quote_that_is_not_closed() {
    assert_eq!(FamilyOwned::parse_list("\"Open, end"), vec![name("Open, end")]);
    assert_eq!(FamilyOwned::parse_list("a, '"), vec![name("a"), name("")]);
}

#[test]
fn parse_list_of_nothing_is_empty() {
    assert!(FamilyOwned::parse_list("").is_empty());
    assert!(FamilyOwned::parse_list("  , ,\t,\n").is_empty());
    assert_eq!(FamilyOwned::parse_list(",,a,,"), vec![name("a")]);
}

#[test]
fn parse_list_keeps_text_behind_a_closing_quote_apart() {
    // What follows a closing quote up to the comma is an entry of its own.
    assert_eq!(FamilyOwned::parse_list("'a'b, c"), vec![name("a"), name("b"), name("c")]);
}

#[test]
fn parse_list_reads_names_that_are_not_ascii() {
    assert_eq!(
        FamilyOwned::parse_list("游ゴシック, 'Ünïcödé', serif"),
        vec![name("游ゴシック"), name("Ünïcödé"), FamilyOwned::Serif]
    );
}

#[test]
fn reader_gives_entries_one_by_one() {
    let mut list = ParseList::new("a, serif");
    assert_eq!(list.next(), Some(name("a")));
    assert_eq!(list.next(), Some(FamilyOwned::Serif));
    assert_eq!(list.next(), None);
    assert_eq!(list.next(), None);
}

#[test]
fn families_compare_by_value() {
    assert!(name("a").same(&name("a")));
    assert!(!name("a").same(&name("b")));
    assert!(!name("serif").same(&FamilyOwned::Serif));
    assert!(FamilyOwned::Cursive.same(&FamilyOwned::Cursive));
    assert!(!FamilyOwned::Cursive.same(&FamilyOwned::Fantasy));
    assert!(name("a").clone().same(&name("a")));
}

fn names(list: &[&str]) -> Vec<String> {
    list.iter().map(|s| s.to_string()).collect()
}

#[test]
fn fallback_tries_lists_in_order() {
    let defaults = [name("Asked"), FamilyOwned::Serif];
    let mut iter = FontFallbackIter::new(
        Attrs::new(),
        &defaults,
        vec![names(&["Script A1", "Script A2"]), names(&[]), names(&["Script C1"])],
        names(&["Common 1", "Common 2"]),
        names(&["Kept out"]),
    );
    let mut seen = Vec::new();
    let mut amiss = Vec::new();
    while let Some(family) = iter.next_family() {
        seen.push(family);
        amiss.push(match iter.check_missing() {
            Missing::Nothing => "nothing".to_string(),
            Missing::Script(family) => family,
            Missing::Preset => "preset".to_string(),
            Missing::Everything => "everything".to_string(),
        });
    }
    assert_eq!(
        seen,
        vec![
            name("Asked"),
            FamilyOwned::Serif,
            name("Script A1"),
            name("Script A2"),
            name("Script C1"),
            name("Common 1"),
            name("Common 2"),
            name("Kept out"),
        ]
    );
    assert_eq!(
        amiss,
        vec!["nothing", "nothing", "nothing", "nothing", "nothing", "Common 1", "Common 2", "preset"]
    );
    assert!(matches!(iter.check_missing(), Missing::Everything));
    assert_eq!(iter.next_family(), None);
    assert!(matches!(iter.check_missing(), Missing::Everything));
}

#[test]
fn fallback_without_scripts_reports_no_common_family() {
    let defaults: [FamilyOwned; 0] = [];
    let mut iter =
        FontFallbackIter::new(Attrs::new(), &defaults, Vec::new(), names(&["Common"]), Vec::new());
    assert!(matches!(iter.check_missing(), Missing::Nothing));
    assert_eq!(iter.next_family(), Some(name("Common")));
    assert!(matches!(iter.check_missing(), Missing::Nothing));
    assert_eq!(iter.next_family(), None);
    assert!(matches!(iter.check_missing(), Missing::Everything));
}

#[test]
fn fallback_with_nothing_to_try() {
    let defaults: [FamilyOwned; 0] = [];
    let mut iter =
        FontFallbackIter::new(Attrs::new().metadata(5), &defaults, Vec::new(), Vec::new(), Vec::new());
    assert_eq!(iter.attrs().metadata, 5);
    assert_eq!(iter.next_family(), None);
    assert!(matches!(iter.check_missing(), Missing::Everything));
}

#[test]
fn default_attributes() {
    let attrs = Attrs::new();
    assert_eq!(attrs.color, Color::rgba(0, 0, 0, 255));
    assert_eq!(attrs.family, &[FamilyOwned::SansSerif]);
    assert!(!attrs.monospaced);
    assert_eq!(attrs.stretch, Stretch::Normal);
    assert_eq!(attrs.style, Style::Normal);
    assert_eq!(attrs.weight, Weight(400));
    assert_eq!(attrs.font_size, 16 * 64);
    assert_eq!(attrs.line_height, LineHeightValue::Normal(64));
    assert_eq!(attrs.metadata, 0);
}

#[test]
fn builders_set_one_field_each() {
    let families = [FamilyOwned::Monospace];
    let attrs = Attrs::new()
        .color(Color::rgb(1, 2, 3))
        .family(&families)
        .monospaced(true)
        .stretch(Stretch::Condensed)
        .style(Style::Italic)
        .weight(Weight(700))
        .font_size(640)
        .line_height(LineHeightValue::Px(900))
        .metadata(11);
    assert_eq!(attrs.color, Color { r: 1, g: 2, b: 3, a: 255 });
    assert_eq!(attrs.family, &[FamilyOwned::Monospace]);
    assert!(attrs.monospaced);
    assert_eq!(attrs.stretch, Stretch::Condensed);
    assert_eq!(attrs.style, Style::Italic);
    assert_eq!(attrs.weight, Weight(700));
    assert_eq!(attrs.font_size, 640);
    assert_eq!(attrs.line_height, LineHeightValue::Px(900));
    assert_eq!(attrs.metadata, 11);
    assert_eq!(attrs.raw_weight(250).weight, Weight(250));
    assert_eq!(Attrs::new().monospaced(true).weight, Weight(400));
}

#[test]
fn compatible_looks_at_the_face_only() {
    let base = Attrs::new();
    assert!(base.compatible(&base.color(Color::rgb(9, 9, 9))));
    assert!(base.compatible(&base.metadata(4)));
    assert!(base.compatible(&base.font_size(9)));
    assert!(base.compatible(&base.line_height(LineHeightValue::Px(1))));
    assert!(!base.compatible(&base.weight(Weight(700))));
    assert!(!base.compatible(&base.style(Style::Oblique)));
    assert!(!base.compatible(&base.stretch(Stretch::Expanded)));
    assert!(!base.compatible(&base.monospaced(true)));
    let serif = [FamilyOwned::Serif];
    assert!(!base.compatible(&base.family(&serif)));
    let sans = [FamilyOwned::SansSerif];
    assert!(base.compatible(&base.family(&sans)));
}

#[test]
fn same_looks_at_every_field() {
    let base = Attrs::new();
    assert!(base.same(&Attrs::new()));
    assert!(!base.same(&base.color(Color::rgb(9, 9, 9))));
    assert!(!base.same(&base.metadata(4)));
    assert!(!base.same(&base.font_size(1025)));
    assert!(!base.same(&base.line_height(LineHeightValue::Px(64))));
    assert!(!base.same(&base.weight(Weight(401))));
}

fn face(post_script_name: &str) -> FaceInfo {
    FaceInfo {
        post_script_name: post_script_name.to_string(),
        style: Style::Normal,
        weight: Weight(400),
        stretch: Stretch::Normal,
        monospaced: false,
    }
}

#[test]
fn matches_compares_the_face() {
    let attrs = Attrs::new();
    assert!(attrs.matches(&face("FiraSans-Regular")));
    assert!(!attrs.weight(Weight(700)).matches(&face("FiraSans-Regular")));
    assert!(!attrs.style(Style::Italic).matches(&face("FiraSans-Regular")));
    assert!(!attrs.stretch(Stretch::SemiExpanded).matches(&face("FiraSans-Regular")));
    assert!(!attrs.monospaced(true).matches(&face("FiraSans-Regular")));
}

#[test]
fn matches_takes_any_emoji_face() {
    let attrs = Attrs::new().weight(Weight(900)).monospaced(true);
    assert!(attrs.matches(&face("NotoColorEmoji")));
    assert!(attrs.matches(&face("Emoji")));
    assert!(attrs.matches(&face("AppleColorEmojiUI")));
    assert!(!attrs.matches(&face("Noto Color emoji")));
    assert!(!attrs.matches(&face("Emoj")));
    assert!(!attrs.matches(&face("")));
}

#[test]
fn font_attrs_take_the_face_part() {
    let families = [name("A"), FamilyOwned::Serif];
    let attrs = Attrs::new().family(&families).weight(Weight(700)).style(Style::Italic).metadata(3);
    let font_attrs = FontAttrs::new(attrs);
    assert_eq!(font_attrs.family, vec![name("A"), FamilyOwned::Serif]);
    assert_eq!(font_attrs.weight, Weight(700));
    assert_eq!(font_attrs.style, Style::Italic);
    assert_eq!(font_attrs.stretch, Stretch::Normal);
    assert!(!font_attrs.monospaced);
    assert_eq!(font_attrs, FontAttrs::new(attrs.metadata(9).color(Color::rgb(1, 1, 1))));
}

#[test]
fn family_for_tells_keywords_from_names() {
    assert_eq!(family_for("Serif", "serif", false), FamilyOwned::Serif);
    assert_eq!(family_for("Serif", "serif", true), name("Serif"));
    assert_eq!(family_for("sans-serif", "sans-serif", false), FamilyOwned::SansSerif);
    assert_eq!(family_for("MONOSPACE", "monospace", false), FamilyOwned::Monospace);
    assert_eq!(family_for("cursive", "cursive", false), FamilyOwned::Cursive);
    assert_eq!(family_for("fantasy", "fantasy", false), FamilyOwned::Fantasy);
    assert_eq!(family_for("Serifa", "serifa", false), name("Serifa"));
    assert_eq!(family_for("", "", false), name(""));
}
