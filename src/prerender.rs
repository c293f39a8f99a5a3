//! The prerenderer: infers a client component's static shape from its
//! source and synthesises a placeholder that keeps the page's layout
//! stable until the component hydrates.

use crate::paths::{extension_of, file_extension, file_stem, stem_of};
use crate::scanner::{file_views, FileView, SourceFile};
use crate::text::{
    chars_of, eq_str, find, has_prefix, index_of, lemma_find_from, occurs_at, opt_view, owned,
    push_chars, push_str, slice, split_on, split_pieces, starts_with_at, starts_with_str, string_of,
    trim, trimmed, views,
};
use crate::table::{put_entry, put_keyed, table_views, Keyed};
use vstd::prelude::*;

verus! {

/// Style properties read from a component's first inline style object,
/// each as its raw text.
#[derive(Debug, Clone)]
pub struct ExtractedStyles {
    pub padding: Option<String>,
    pub margin: Option<String>,
    pub background_color: Option<String>,
    pub border_radius: Option<String>,
    pub text_align: Option<String>,
    pub display: Option<String>,
    pub flex_direction: Option<String>,
    pub gap: Option<String>,
    pub justify_content: Option<String>,
    pub align_items: Option<String>,
    pub width: Option<String>,
    pub height: Option<String>,
    pub min_height: Option<String>,
    pub min_width: Option<String>,
    pub color: Option<String>,
    pub font_size: Option<String>,
    pub font_weight: Option<String>,
}

/// The properties in field order.
pub open spec fn styles_view(s: ExtractedStyles) -> Seq<Option<Seq<char>>> {
    seq![
        opt_view(s.padding),
        opt_view(s.margin),
        opt_view(s.background_color),
        opt_view(s.border_radius),
        opt_view(s.text_align),
        opt_view(s.display),
        opt_view(s.flex_direction),
        opt_view(s.gap),
        opt_view(s.justify_content),
        opt_view(s.align_items),
        opt_view(s.width),
        opt_view(s.height),
        opt_view(s.min_height),
        opt_view(s.min_width),
        opt_view(s.color),
        opt_view(s.font_size),
        opt_view(s.font_weight),
    ]
}

/// No property set.
pub open spec fn no_styles() -> Seq<Option<Seq<char>>> {
    Seq::new(17, |i: int| None)
}

impl Default for ExtractedStyles {
    fn default() -> (r: Self)
        ensures
            styles_view(r) == no_styles(),
    {
        let r = ExtractedStyles {
            padding: None,
            margin: None,
            background_color: None,
            border_radius: None,
            text_align: None,
            display: None,
            flex_direction: None,
            gap: None,
            justify_content: None,
            align_items: None,
            width: None,
            height: None,
            min_height: None,
            min_width: None,
            color: None,
            font_size: None,
            font_weight: None,
        };
        assert(styles_view(r) =~= no_styles());
        r
    }
}

/// The field that a style key sets, in field order, or -1 for a key that
/// is not recognised.
pub open spec fn style_index(k: Seq<char>) -> int {
    if k == "padding"@ {
        0
    } else if k == "margin"@ {
        1
    } else if k == "backgroundColor"@ {
        2
    } else if k == "borderRadius"@ {
        3
    } else if k == "textAlign"@ {
        4
    } else if k == "display"@ {
        5
    } else if k == "flexDirection"@ {
        6
    } else if k == "gap"@ {
        7
    } else if k == "justifyContent"@ {
        8
    } else if k == "alignItems"@ {
        9
    } else if k == "width"@ {
        10
    } else if k == "height"@ {
        11
    } else if k == "minHeight"@ {
        12
    } else if k == "minWidth"@ {
        13
    } else if k == "color"@ {
        14
    } else if k == "fontSize"@ {
        15
    } else if k == "fontWeight"@ {
        16
    } else {
        -1
    }
}

/// The properties with key `k` set to `v`, when `k` is recognised.
pub open spec fn set_style(sv: Seq<Option<Seq<char>>>, k: Seq<char>, v: Seq<char>) -> Seq<
    Option<Seq<char>>,
> {
    if style_index(k) >= 0 {
        sv.update(style_index(k), Some(v))
    } else {
        sv
    }
}

fn set_style_field(styles: &mut ExtractedStyles, key: &Vec<char>, value: String)
    ensures
        styles_view(*final(styles)) == set_style(styles_view(*old(styles)), key@, value@),
{
    let ghost before = styles_view(*styles);
    let ghost v = value@;
    if eq_str(key, "padding") {
        styles.padding = Some(value);
    } else if eq_str(key, "margin") {
        styles.margin = Some(value);
    } else if eq_str(key, "backgroundColor") {
        styles.background_color = Some(value);
    } else if eq_str(key, "borderRadius") {
        styles.border_radius = Some(value);
    } else if eq_str(key, "textAlign") {
        styles.text_align = Some(value);
    } else if eq_str(key, "display") {
        styles.display = Some(value);
    } else if eq_str(key, "flexDirection") {
        styles.flex_direction = Some(value);
    } else if eq_str(key, "gap") {
        styles.gap = Some(value);
    } else if eq_str(key, "justifyContent") {
        styles.justify_content = Some(value);
    } else if eq_str(key, "alignItems") {
        styles.align_items = Some(value);
    } else if eq_str(key, "width") {
        styles.width = Some(value);
    } else if eq_str(key, "height") {
        styles.height = Some(value);
    } else if eq_str(key, "minHeight") {
        styles.min_height = Some(value);
    } else if eq_str(key, "minWidth") {
        styles.min_width = Some(value);
    } else if eq_str(key, "color") {
        styles.color = Some(value);
    } else if eq_str(key, "fontSize") {
        styles.font_size = Some(value);
    } else if eq_str(key, "fontWeight") {
        styles.font_weight = Some(value);
    }
    assert(styles_view(*styles) =~= set_style(before, key@, v));
}

// ---------------------------------------------------------------------------
// The style object

/// `s` without the copies of `c` at its start.
pub open spec fn strip_start_char(s: Seq<char>, c: char) -> Seq<char>
    decreases s.len(),
{
    if s.len() > 0 && s[0] == c {
        strip_start_char(s.drop_first(), c)
    } else {
        s
    }
}

/// `s` without the copies of `c` at its end.
pub open spec fn strip_end_char(s: Seq<char>, c: char) -> Seq<char>
    decreases s.len(),
{
    if s.len() > 0 && s.last() == c {
        strip_end_char(s.drop_last(), c)
    } else {
        s
    }
}

/// `s` without copies of `c` at either end, as `str::trim_matches(c)`.
pub open spec fn strip_char(s: Seq<char>, c: char) -> Seq<char> {
    strip_end_char(strip_start_char(s, c), c)
}

/// `s` with surrounding single, then double quotes removed.
pub open spec fn unquoted(s: Seq<char>) -> Seq<char> {
    strip_char(strip_char(s, '\''), '"')
}

fn trim_char(s: &Vec<char>, c: char) -> (r: Vec<char>)
    ensures
        r@ == strip_char(s@, c),
{
    let n = s.len();
    let mut i: usize = 0;
    assert(s@.subrange(0, n as int) =~= s@);
    while i < n && s[i] == c
        invariant
            n == s@.len(),
            i <= n,
            strip_start_char(s@, c) == strip_start_char(s@.subrange(i as int, n as int), c),
        decreases n - i,
    {
        assert(s@.subrange(i as int, n as int).drop_first() =~= s@.subrange(i + 1, n as int));
        i = i + 1;
    }
    let mut j: usize = n;
    while j > i && s[j - 1] == c
        invariant
            n == s@.len(),
            i <= j <= n,
            strip_end_char(s@.subrange(i as int, n as int), c) == strip_end_char(
                s@.subrange(i as int, j as int),
                c,
            ),
        decreases j - i,
    {
        assert(s@.subrange(i as int, j as int).drop_last() =~= s@.subrange(i as int, j - 1));
        j = j - 1;
    }
    slice(s, i, j)
}

fn unquote(s: &Vec<char>) -> (r: Vec<char>)
    ensures
        r@ == unquoted(s@),
{
    let a = trim_char(s, '\'');
    trim_char(&a, '"')
}

/// The properties after one `key: value` pair: both sides trimmed and
/// unquoted, split at the first `:`; a pair without `:` sets nothing.
pub open spec fn pair_step(sv: Seq<Option<Seq<char>>>, pair: Seq<char>) -> Seq<Option<Seq<char>>> {
    let p = trimmed(pair);
    match index_of(p, seq![':']) {
        Some(c) => set_style(sv, unquoted(trimmed(p.take(c))), unquoted(trimmed(p.skip(c + 1)))),
        None => sv,
    }
}

/// The properties after the first `n` pairs.
pub open spec fn pairs_upto(pairs: Seq<Seq<char>>, n: int) -> Seq<Option<Seq<char>>>
    decreases n,
{
    if n <= 0 {
        no_styles()
    } else {
        pair_step(pairs_upto(pairs, n - 1), pairs[n - 1])
    }
}

/// The properties of a style object's body: its comma-separated pairs in
/// order, a later pair over an earlier one.
pub open spec fn parsed_styles(content: Seq<char>) -> Seq<Option<Seq<char>>> {
    let pairs = split_pieces(content, seq![',']);
    pairs_upto(pairs, pairs.len() as int)
}

fn style_body(content: &Vec<char>) -> (r: ExtractedStyles)
    ensures
        styles_view(r) == parsed_styles(content@),
{
    let comma = vec![','];
    let colon = vec![':'];
    assert(comma@ =~= seq![',']);
    assert(colon@ =~= seq![':']);
    let pairs = split_on(content, &comma);
    let ghost pv = views(pairs@);
    let mut styles = ExtractedStyles::default();
    let mut i: usize = 0;
    while i < pairs.len()
        invariant
            pv == views(pairs@),
            pv == split_pieces(content@, seq![',']),
            colon@ == seq![':'],
            i <= pairs@.len(),
            styles_view(styles) == pairs_upto(pv, i as int),
        decreases pairs@.len() - i,
    {
        assert(pv[i as int] == pairs@[i as int]@);
        let p = trim(&pairs[i]);
        match find(&p, &colon) {
            Some(c) => {
                proof {
                    lemma_find_from(p@, colon@, 0);
                }
                let n = p.len();
                let k = trim(&slice(&p, 0, c));
                let v = trim(&slice(&p, c + 1, n));
                assert(p@.take(c as int) =~= p@.subrange(0, c as int));
                assert(p@.skip(c + 1) =~= p@.subrange(c + 1, n as int));
                let key = unquote(&k);
                let value = unquote(&v);
                set_style_field(&mut styles, &key, string_of(&value));
            },
            None => {},
        }
        i = i + 1;
    }
    styles
}

/// Reads an inline style object's body: the comma-separated `key: value`
/// pairs, trimmed and unquoted, that name a recognised property.
pub fn parse_style_object(content: &str) -> (r: ExtractedStyles)
    ensures
        styles_view(r) == parsed_styles(content@),
{
    let c = chars_of(content);
    style_body(&c)
}

/// The position at or after `i` of the `}` that closes the brace open at
/// depth `depth`.
pub open spec fn closing_from(s: Seq<char>, i: int, depth: int) -> Option<int>
    decreases s.len() - i,
{
    if i < 0 || i >= s.len() {
        None
    } else if s[i] == '{' {
        closing_from(s, i + 1, depth + 1)
    } else if s[i] == '}' {
        if depth <= 1 {
            Some(i)
        } else {
            closing_from(s, i + 1, depth - 1)
        }
    } else {
        closing_from(s, i + 1, depth)
    }
}

fn closing_brace(s: &Vec<char>) -> (r: Option<usize>)
    ensures
        r matches Some(k) ==> closing_from(s@, 0, 1) == Some(k as int) && k < s@.len(),
        r is None ==> closing_from(s@, 0, 1) is None,
{
    let mut opens: usize = 0;
    let mut closes: usize = 0;
    let mut i: usize = 0;
    while i < s.len()
        invariant
            i <= s@.len(),
            closes <= opens,
            opens + closes <= i,
            closing_from(s@, 0, 1) == closing_from(s@, i as int, 1 + opens - closes),
        decreases s@.len() - i,
    {
        let c = s[i];
        if c == '{' {
            opens = opens + 1;
        } else if c == '}' {
            if opens == closes {
                return Some(i);
            }
            closes = closes + 1;
        }
        i = i + 1;
    }
    None
}

/// The position of the `}` that closes a brace opened just before `s`,
/// counting nested braces.
pub fn find_matching_brace(s: &str) -> (r: Option<usize>)
    ensures
        r matches Some(k) ==> closing_from(s@, 0, 1) == Some(k as int),
        r is None ==> closing_from(s@, 0, 1) is None,
{
    let c = chars_of(s);
    closing_brace(&c)
}

// ---------------------------------------------------------------------------
// Pixel values

/// The value of a decimal digit character.
pub open spec fn digit_value(c: char) -> int {
    (c as u32) - ('0' as u32)
}

/// An ASCII decimal digit.
pub open spec fn is_digit(c: char) -> bool {
    '0' <= c && c <= '9'
}

/// The number that the digits `d` write.
pub open spec fn digits_value(d: Seq<char>) -> int
    decreases d.len(),
{
    if d.len() == 0 {
        0
    } else {
        digits_value(d.drop_last()) * 10 + digit_value(d.last())
    }
}

/// The digits part of an unsigned number: `s` without a leading `+`.
pub open spec fn unsigned_digits(s: Seq<char>) -> Seq<char> {
    if s.len() > 0 && s[0] == '+' {
        s.drop_first()
    } else {
        s
    }
}

/// Every character of `d` is a decimal digit.
pub open spec fn all_digits(d: Seq<char>) -> bool {
    forall|i: int| 0 <= i < d.len() ==> is_digit(#[trigger] d[i])
}

/// What `str::parse::<u32>` gives: an optional `+`, then at least one
/// decimal digit and nothing else, naming a number that fits in 32 bits.
pub open spec fn parsed_u32(s: Seq<char>) -> Option<u32> {
    let d = unsigned_digits(s);
    if d.len() > 0 && all_digits(d) && digits_value(d) <= u32::MAX {
        Some(digits_value(d) as u32)
    } else {
        None
    }
}

/// Where `s` ends once trailing repetitions of `px` before `end` are
/// dropped.
pub open spec fn px_end(s: Seq<char>, end: int) -> int
    decreases end,
{
    if 2 <= end <= s.len() && s[end - 2] == 'p' && s[end - 1] == 'x' {
        px_end(s, end - 2)
    } else {
        end
    }
}

/// `s` without trailing repetitions of `px`, as
/// `str::trim_end_matches("px")`.
pub open spec fn without_px(s: Seq<char>) -> Seq<char> {
    s.take(px_end(s, s.len() as int))
}

proof fn lemma_px_end(s: Seq<char>, end: int)
    requires
        0 <= end <= s.len(),
    ensures
        0 <= px_end(s, end) <= end,
    decreases end,
{
    if 2 <= end && s[end - 2] == 'p' && s[end - 1] == 'x' {
        lemma_px_end(s, end - 2);
    }
}

proof fn lemma_digits_value_grows(d: Seq<char>, k: int)
    requires
        0 <= k <= d.len(),
        forall|i: int| 0 <= i < d.len() ==> is_digit(#[trigger] d[i]),
    ensures
        digits_value(d.take(k)) <= digits_value(d),
        digits_value(d) >= 0,
    decreases d.len(),
{
    if d.len() > 0 {
        if k == d.len() {
            assert(d.take(k) =~= d);
            lemma_digits_value_grows(d.drop_last(), 0);
        } else {
            assert(d.drop_last().take(k) =~= d.take(k));
            lemma_digits_value_grows(d.drop_last(), k);
        }
    }
}

fn parse_u32(s: &Vec<char>) -> (r: Option<u32>)
    ensures
        r == parsed_u32(s@),
{
    let start: usize = if s.len() > 0 && s[0] == '+' {
        1
    } else {
        0
    };
    let d = slice(s, start, s.len());
    let ghost dd = unsigned_digits(s@);
    assert(d@ =~= dd);
    if d.len() == 0 {
        return None;
    }
    let mut value: u64 = 0;
    let mut i: usize = 0;
    while i < d.len()
        invariant
            d@ == dd,
            dd == unsigned_digits(s@),
            i <= d@.len(),
            forall|j: int| 0 <= j < i ==> is_digit(#[trigger] d@[j]),
            value as int == digits_value(d@.take(i as int)),
            value <= u32::MAX,
        decreases d@.len() - i,
    {
        let c = d[i];
        if !('0' <= c && c <= '9') {
            assert(!is_digit(dd[i as int]));
            assert(!all_digits(dd));
            return None;
        }
        let ghost t = d@.take(i + 1);
        assert(t.drop_last() =~= d@.take(i as int));
        assert(t.last() == c);
        let next: u64 = value * 10 + ((c as u32) - ('0' as u32)) as u64;
        assert(next as int == digits_value(t));
        if next > 4294967295 {
            proof {
                if all_digits(dd) {
                    lemma_digits_value_grows(dd, i + 1);
                    assert(digits_value(dd) > u32::MAX);
                }
            }
            return None;
        }
        value = next;
        i = i + 1;
    }
    assert(d@.take(d@.len() as int) =~= d@);
    Some(value as u32)
}

fn strip_px(v: &Vec<char>) -> (r: Vec<char>)
    ensures
        r@ == without_px(v@),
{
    let mut end: usize = v.len();
    while end >= 2 && v[end - 2] == 'p' && v[end - 1] == 'x'
        invariant
            end <= v@.len(),
            px_end(v@, v@.len() as int) == px_end(v@, end as int),
        decreases end,
    {
        end = end - 2;
    }
    proof {
        lemma_px_end(v@, v@.len() as int);
    }
    slice(v, 0, end)
}

/// Reads a pixel length such as `20px`: the number before any trailing
/// `px`.
pub fn parse_px_value(value: &str) -> (r: Option<u32>)
    ensures
        r == parsed_u32(without_px(value@)),
{
    let v = chars_of(value);
    let base = strip_px(&v);
    parse_u32(&base)
}

// ---------------------------------------------------------------------------
// Counting elements

/// The number of non-overlapping occurrences of `p` in `s` from `i` on,
/// as `str::matches(p).count()` finds them.
pub open spec fn count_from(s: Seq<char>, p: Seq<char>, i: int) -> int
    decreases s.len() + 1 - i,
{
    if i < 0 || i > s.len() || p.len() == 0 || i + p.len() > s.len() {
        0
    } else if occurs_at(s, p, i) {
        1 + count_from(s, p, i + p.len())
    } else {
        count_from(s, p, i + 1)
    }
}

/// The number of non-overlapping occurrences of `p` in `s`.
pub open spec fn occurrences(s: Seq<char>, p: Seq<char>) -> int {
    count_from(s, p, 0)
}

proof fn lemma_count_from(s: Seq<char>, p: Seq<char>, i: int)
    requires
        0 <= i,
    ensures
        0 <= count_from(s, p, i),
        i <= s.len() ==> count_from(s, p, i) <= s.len() - i,
    decreases s.len() + 1 - i,
{
    if i <= s.len() && p.len() > 0 && i + p.len() <= s.len() {
        if occurs_at(s, p, i) {
            lemma_count_from(s, p, i + p.len());
        } else {
            lemma_count_from(s, p, i + 1);
        }
    }
}

fn count_occurrences(s: &Vec<char>, lit: &str) -> (r: usize)
    ensures
        r as int == occurrences(s@, lit@),
{
    let p = chars_of(lit);
    if p.len() == 0 {
        return 0;
    }
    let mut count: usize = 0;
    let mut i: usize = 0;
    proof {
        lemma_count_from(s@, p@, 0);
    }
    while i <= s.len() && p.len() <= s.len() - i
        invariant
            p@ == lit@,
            p@.len() > 0,
            i <= s@.len() + 1,
            count <= i,
            occurrences(s@, p@) == count + count_from(s@, p@, i as int),
        decreases s@.len() + 1 - i,
    {
        if starts_with_at(s, &p, i) {
            count = count + 1;
            i = i + p.len();
        } else {
            i = i + 1;
        }
    }
    count
}

// ---------------------------------------------------------------------------
// The placeholder

pub const ROOT_OPEN: &'static str = r#"<div style="padding:"#;

pub const ROOT_BACKGROUND: &'static str = r#";background-color:"#;

pub const ROOT_RADIUS: &'static str = r#";border-radius:"#;

pub const ROOT_ALIGN: &'static str = r#";text-align:"#;

pub const ROOT_MARGIN: &'static str = r#";margin:"#;

pub const ROOT_CLOSE: &'static str = r#";">"#;

pub const HEADING_BLOCK: &'static str = r#"<div style="height:24px;background:linear-gradient(90deg,#333 25%,#444 50%,#333 75%);background-size:200% 100%;animation:shimmer 1.5s infinite;border-radius:4px;margin-bottom:16px;width:80%;margin-left:auto;margin-right:auto;"></div>"#;

pub const PARAGRAPH_BLOCK: &'static str = r#"<div style="height:48px;width:60px;background:linear-gradient(90deg,rgba(0,217,255,0.2) 25%,rgba(0,217,255,0.3) 50%,rgba(0,217,255,0.2) 75%);background-size:200% 100%;animation:shimmer 1.5s infinite;border-radius:8px;margin:20px auto;"></div>"#;

pub const BUTTON_ROW: &'static str = r#"<div style="display:flex;gap:10px;justify-content:center;">"#;

pub const BUTTON_OPEN: &'static str = r#"<div style="width:72px;height:44px;background:linear-gradient(90deg,"#;

pub const BUTTON_MIDDLE: &'static str = r#" 25%,rgba(255,255,255,0.1) 50%,"#;

pub const BUTTON_CLOSE: &'static str = r#" 75%);background-size:200% 100%;animation:shimmer 1.5s infinite;border-radius:8px;"></div>"#;

pub const SHIMMER_KEYFRAMES: &'static str = r#"<style>@keyframes shimmer{0%{background-position:200% 0}100%{background-position:-200% 0}}</style>"#;

/// The text of an optional property, or `d`.
pub open spec fn or_default(o: Option<Seq<char>>, d: Seq<char>) -> Seq<char> {
    match o {
        Some(v) => v,
        None => d,
    }
}

/// `n` copies of `s`.
pub open spec fn repeat(s: Seq<char>, n: int) -> Seq<char>
    decreases n,
{
    if n <= 0 {
        Seq::empty()
    } else {
        repeat(s, n - 1) + s
    }
}

/// The accent of button `i`: the two colours alternate.
pub open spec fn button_color(i: int) -> Seq<char> {
    if i % 2 == 0 {
        "rgba(255,71,87,0.3)"@
    } else {
        "rgba(46,213,115,0.3)"@
    }
}

/// One shimmer block for a button.
pub open spec fn button_block(color: Seq<char>) -> Seq<char> {
    BUTTON_OPEN@ + color + BUTTON_MIDDLE@ + color + BUTTON_CLOSE@
}

/// The shimmer blocks of the first `n` buttons.
pub open spec fn button_blocks(n: int) -> Seq<char>
    decreases n,
{
    if n <= 0 {
        Seq::empty()
    } else {
        button_blocks(n - 1) + button_block(button_color(n - 1))
    }
}

/// The placeholder markup: a root block with the extracted padding,
/// background colour, border radius, text alignment and margin (or their
/// defaults), a shimmer block per heading and per paragraph, a row of
/// button blocks when there are buttons, and the keyframes.
pub open spec fn placeholder_of(sv: Seq<Option<Seq<char>>>, headings: int, paragraphs: int, buttons: int) -> Seq<char> {
    ROOT_OPEN@ + or_default(sv[0], "20px"@) + ROOT_BACKGROUND@ + or_default(sv[2], "#1a1a2e"@)
        + ROOT_RADIUS@ + or_default(sv[3], "12px"@) + ROOT_ALIGN@ + or_default(sv[4], "center"@)
        + ROOT_MARGIN@ + or_default(sv[1], "20px 0"@) + ROOT_CLOSE@ + repeat(HEADING_BLOCK@, headings)
        + repeat(PARAGRAPH_BLOCK@, paragraphs) + (if buttons > 0 {
        BUTTON_ROW@ + button_blocks(buttons) + "</div>"@
    } else {
        Seq::empty()
    }) + "</div>"@ + SHIMMER_KEYFRAMES@
}

fn push_or(out: &mut String, o: &Option<String>, d: &str)
    ensures
        final(out)@ == old(out)@ + or_default(opt_view(*o), d@),
{
    match o {
        Some(v) => push_str(out, v.as_str()),
        None => push_str(out, d),
    }
}

fn push_repeated(out: &mut String, s: &str, n: usize)
    ensures
        final(out)@ == old(out)@ + repeat(s@, n as int),
{
    let mut i: usize = 0;
    while i < n
        invariant
            i <= n,
            out@ == old(out)@ + repeat(s@, i as int),
        decreases n - i,
    {
        push_str(out, s);
        i = i + 1;
    }
}

/// Placeholder markup for a component with the given styles and element
/// counts.
pub fn generate_placeholder_html(
    styles: &ExtractedStyles,
    h2_count: usize,
    p_count: usize,
    button_count: usize,
) -> (r: String)
    ensures
        r@ == placeholder_of(
            styles_view(*styles),
            h2_count as int,
            p_count as int,
            button_count as int,
        ),
{
    let ghost sv = styles_view(*styles);
    let mut html = owned(ROOT_OPEN);
    push_or(&mut html, &styles.padding, "20px");
    push_str(&mut html, ROOT_BACKGROUND);
    push_or(&mut html, &styles.background_color, "#1a1a2e");
    push_str(&mut html, ROOT_RADIUS);
    push_or(&mut html, &styles.border_radius, "12px");
    push_str(&mut html, ROOT_ALIGN);
    push_or(&mut html, &styles.text_align, "center");
    push_str(&mut html, ROOT_MARGIN);
    push_or(&mut html, &styles.margin, "20px 0");
    push_str(&mut html, ROOT_CLOSE);
    push_repeated(&mut html, HEADING_BLOCK, h2_count);
    push_repeated(&mut html, PARAGRAPH_BLOCK, p_count);
    let ghost before_buttons = html@;
    if button_count > 0 {
        push_str(&mut html, BUTTON_ROW);
        let ghost row_start = html@;
        let mut i: usize = 0;
        while i < button_count
            invariant
                i <= button_count,
                html@ == row_start + button_blocks(i as int),
            decreases button_count - i,
        {
            let color = if i % 2 == 0 {
                "rgba(255,71,87,0.3)"
            } else {
                "rgba(46,213,115,0.3)"
            };
            push_str(&mut html, BUTTON_OPEN);
            push_str(&mut html, color);
            push_str(&mut html, BUTTON_MIDDLE);
            push_str(&mut html, color);
            push_str(&mut html, BUTTON_CLOSE);
            assert(html@ =~= row_start + button_blocks(i + 1));
            i = i + 1;
        }
        push_str(&mut html, "</div>");
    }
    push_str(&mut html, "</div>");
    push_str(&mut html, SHIMMER_KEYFRAMES);
    assert(html@ =~= placeholder_of(sv, h2_count as int, p_count as int, button_count as int));
    html
}

// ---------------------------------------------------------------------------
// Structure

/// The body of the first inline style object: from after the first
/// `style={{` to the brace that closes it.
pub open spec fn style_body_of(c: Seq<char>) -> Option<Seq<char>> {
    match index_of(c, "style={{"@) {
        Some(k) => {
            let after = c.skip(k + "style={{"@.len());
            match closing_from(after, 0, 1) {
                Some(e) => Some(after.take(e)),
                None => None,
            }
        },
        None => None,
    }
}

/// The properties of the first inline style object, if there is one.
pub open spec fn jsx_styles(c: Seq<char>) -> Seq<Option<Seq<char>>> {
    match style_body_of(c) {
        Some(b) => parsed_styles(b),
        None => no_styles(),
    }
}

/// The estimated height: a 40-pixel base, 40 per heading, 60 per
/// paragraph, 25 per button (buttons sit side by side, two to 50 pixels),
/// and 20 per `div` besides the root; at most what 32 bits hold.
pub open spec fn estimated_height_of(c: Seq<char>) -> int {
    let divs = occurrences(c, "<div"@);
    let h = 40 + 40 * occurrences(c, "<h2"@) + 60 * occurrences(c, "<p "@) + 25 * occurrences(
        c,
        "<button"@,
    ) + 20 * (if divs > 0 {
        divs - 1
    } else {
        0
    });
    if h <= u32::MAX {
        h
    } else {
        u32::MAX as int
    }
}

/// The placeholder markup for source `c`.
pub open spec fn jsx_placeholder(c: Seq<char>) -> Seq<char> {
    placeholder_of(
        jsx_styles(c),
        occurrences(c, "<h2"@),
        occurrences(c, "<p "@),
        occurrences(c, "<button"@),
    )
}

fn first_style_object(c: &Vec<char>) -> (r: ExtractedStyles)
    ensures
        styles_view(r) == jsx_styles(c@),
{
    let marker = chars_of("style={{");
    match find(c, &marker) {
        Some(k) => {
            proof {
                lemma_find_from(c@, marker@, 0);
            }
            let n = c.len();
            let after = slice(c, k + marker.len(), n);
            assert(after@ =~= c@.skip(k + "style={{"@.len()));
            match closing_brace(&after) {
                Some(e) => {
                    let body = slice(&after, 0, e);
                    assert(body@ =~= after@.take(e as int));
                    style_body(&body)
                },
                None => ExtractedStyles::default(),
            }
        },
        None => ExtractedStyles::default(),
    }
}

fn estimate_height(c: &Vec<char>, h2: usize, p: usize, buttons: usize) -> (r: u32)
    requires
        h2 as int == occurrences(c@, "<h2"@),
        p as int == occurrences(c@, "<p "@),
        buttons as int == occurrences(c@, "<button"@),
    ensures
        r as int == estimated_height_of(c@),
{
    let divs = count_occurrences(c, "<div");
    let others: u128 = if divs > 0 {
        (divs - 1) as u128
    } else {
        0
    };
    let h: u128 = 40 + 40 * (h2 as u128) + 60 * (p as u128) + 25 * (buttons as u128) + 20 * others;
    if h <= 4294967295 {
        h as u32
    } else {
        4294967295
    }
}

/// The static structure of a component's source: the properties of its
/// first inline style object, its placeholder markup, its estimated height
/// and, not estimated, its width.
pub fn extract_jsx_structure(content: &str) -> (r: (ExtractedStyles, String, u32, Option<u32>))
    ensures
        styles_view(r.0) == jsx_styles(content@),
        r.1@ == jsx_placeholder(content@),
        r.2 as int == estimated_height_of(content@),
        r.3 is None,
{
    let c = chars_of(content);
    let styles = first_style_object(&c);
    let h2 = count_occurrences(&c, "<h2");
    let p = count_occurrences(&c, "<p ");
    let buttons = count_occurrences(&c, "<button");
    let height = estimate_height(&c, h2, p, buttons);
    let html = generate_placeholder_html(&styles, h2, p, buttons);
    (styles, html, height, None)
}

// ---------------------------------------------------------------------------
// Components

/// A client component's placeholder.
#[derive(Debug, Clone)]
pub struct PrerenderedComponent {
    /// `client:` and the file's base name.
    pub component_id: String,
    /// The root element, always `div`.
    pub root_tag: String,
    /// The properties of its first inline style object.
    pub root_styles: ExtractedStyles,
    /// The placeholder markup.
    pub placeholder_html: String,
    /// Estimated height in pixels.
    pub estimated_height: u32,
    /// Estimated width in pixels; not estimated.
    pub estimated_width: Option<u32>,
}

pub struct PrerenderView {
    pub component_id: Seq<char>,
    pub root_tag: Seq<char>,
    pub root_styles: Seq<Option<Seq<char>>>,
    pub placeholder_html: Seq<char>,
    pub estimated_height: u32,
    pub estimated_width: Option<u32>,
}

impl View for PrerenderedComponent {
    type V = PrerenderView;

    open spec fn view(&self) -> PrerenderView {
        PrerenderView {
            component_id: self.component_id@,
            root_tag: self.root_tag@,
            root_styles: styles_view(self.root_styles),
            placeholder_html: self.placeholder_html@,
            estimated_height: self.estimated_height,
            estimated_width: self.estimated_width,
        }
    }
}

impl Keyed for PrerenderedComponent {
    open spec fn key_of(v: PrerenderView) -> Seq<char> {
        v.component_id
    }

    fn key(&self) -> (r: &String) {
        &self.component_id
    }
}

/// The last component of a file path: what follows its last `/`.
pub open spec fn path_file_name(p: Seq<char>) -> Seq<char>
    decreases p.len(),
{
    if p.len() == 0 || p.last() == '/' {
        Seq::empty()
    } else {
        path_file_name(p.drop_last()).push(p.last())
    }
}

/// The base name of a file path, `unknown` when the path names no file.
pub open spec fn component_name_of(p: Seq<char>) -> Seq<char> {
    if path_file_name(p).len() == 0 {
        "unknown"@
    } else {
        file_stem(path_file_name(p))
    }
}

fn file_name_part(p: &Vec<char>) -> (r: Vec<char>)
    ensures
        r@ == path_file_name(p@),
{
    let mut i: usize = p.len();
    assert(p@.take(i as int) =~= p@);
    assert(p@.subrange(i as int, i as int) =~= Seq::<char>::empty());
    while i > 0 && p[i - 1] != '/'
        invariant
            i <= p@.len(),
            path_file_name(p@) == path_file_name(p@.take(i as int)) + p@.subrange(
                i as int,
                p@.len() as int,
            ),
        decreases i,
    {
        let ghost t = p@.take(i as int);
        assert(t.drop_last() =~= p@.take(i - 1));
        assert(p@.subrange(i - 1, p@.len() as int) =~= seq![t.last()] + p@.subrange(
            i as int,
            p@.len() as int,
        ));
        i = i - 1;
    }
    let n = p.len();
    assert(path_file_name(p@.take(i as int)) =~= Seq::<char>::empty());
    slice(p, i, n)
}

/// The component a client source file prerenders to: only a file whose
/// very first characters are the quoted directive is one.
pub open spec fn prerendered_of(path: Seq<char>, content: Seq<char>) -> Option<PrerenderView> {
    if has_prefix(content, "'client load'"@) || has_prefix(content, "\"client load\""@) {
        Some(
            PrerenderView {
                component_id: "client:"@ + component_name_of(path),
                root_tag: "div"@,
                root_styles: jsx_styles(content),
                placeholder_html: jsx_placeholder(content),
                estimated_height: estimated_height_of(content) as u32,
                estimated_width: None,
            },
        )
    } else {
        None
    }
}

/// Prerenders the client component at `file_path` whose text is
/// `content`. Only a file that opens with the quoted directive on its very
/// first characters qualifies; blank lines or comments before it do not
/// count here.
pub fn prerender_client_component(file_path: &str, content: &str) -> (r: Option<
    PrerenderedComponent,
>)
    ensures
        r matches Some(c) ==> prerendered_of(file_path@, content@) == Some(c@),
        r is None ==> prerendered_of(file_path@, content@) is None,
{
    let c = chars_of(content);
    if !(starts_with_str(&c, "'client load'") || starts_with_str(&c, "\"client load\"")) {
        return None;
    }
    let path = chars_of(file_path);
    let name = file_name_part(&path);
    let mut id = owned("client:");
    if name.len() == 0 {
        push_str(&mut id, "unknown");
    } else {
        let stem = stem_of(&name);
        push_chars(&mut id, &stem);
    }
    let (root_styles, placeholder_html, estimated_height, estimated_width) = extract_jsx_structure(
        content,
    );
    Some(
        PrerenderedComponent {
            component_id: id,
            root_tag: owned("div"),
            root_styles,
            placeholder_html,
            estimated_height,
            estimated_width,
        },
    )
}

/// The files that batch prerendering reads: extension `tsx` or `jsx`.
pub open spec fn is_prerender_target(name: Seq<char>) -> bool {
    file_extension(name) == Some("tsx"@) || file_extension(name) == Some("jsx"@)
}

/// Whether batch prerendering reads a file of this name.
pub fn is_prerender_source(file_name: &str) -> (r: bool)
    ensures
        r == is_prerender_target(file_name@),
{
    let name = chars_of(file_name);
    match extension_of(&name) {
        Some(e) => eq_str(&e, "tsx") || eq_str(&e, "jsx"),
        None => false,
    }
}

/// The placeholders of the client components among `files`, keyed by
/// component identifier, a later file over an earlier one.
pub open spec fn prerendered_all(files: Seq<FileView>) -> Seq<PrerenderView>
    decreases files.len(),
{
    if files.len() == 0 {
        Seq::empty()
    } else {
        let prev = prerendered_all(files.drop_last());
        let f = files.last();
        if is_prerender_target(f.file_name) {
            match prerendered_of(f.absolute_path, f.source) {
                Some(c) => put_keyed::<PrerenderedComponent>(prev, c),
                None => prev,
            }
        } else {
            prev
        }
    }
}

/// Prerenders every `tsx` and `jsx` file among `files` (in walk order)
/// that is a client component, one placeholder per component identifier.
pub fn prerender_all_client_components(files: &Vec<SourceFile>) -> (r: Vec<PrerenderedComponent>)
    ensures
        table_views(r@) == prerendered_all(file_views(files@)),
{
    let ghost fv = file_views(files@);
    let mut out: Vec<PrerenderedComponent> = Vec::new();
    let mut i: usize = 0;
    assert(fv.take(0) =~= Seq::<FileView>::empty());
    while i < files.len()
        invariant
            fv == file_views(files@),
            i <= files@.len(),
            table_views(out@) == prerendered_all(fv.take(i as int)),
        decreases files@.len() - i,
    {
        let f = &files[i];
        assert(fv.take(i + 1).drop_last() =~= fv.take(i as int));
        assert(fv.take(i + 1).last() == f@);
        if is_prerender_source(f.file_name.as_str()) {
            match prerender_client_component(f.absolute_path.as_str(), f.source.as_str()) {
                Some(c) => put_entry(&mut out, c),
                None => {},
            }
        }
        i = i + 1;
    }
    assert(fv.take(files@.len() as int) =~= fv);
    out
}

} // verus!
