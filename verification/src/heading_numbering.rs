//! Turning resolved heading numbers into live multilevel numbering.
//!
//! Every heading arrives with a finished number baked in as a leading run. A
//! word processor's own idiom is a multilevel list whose levels are bound to the
//! heading styles, which renumbers as the reader edits. The two numbering models
//! are not the same machine, so this pass checks before it goes live: it replays
//! the multilevel numbering over the document's headings and rewrites them only
//! when every heading comes out with the number it already carries.

use vstd::prelude::*;

use crate::dom::{
    AbstractNum, Block, Cell, Field, Footnote, HdrFtrPart, HeadingStyle, ListLevel, MultiLevelType,
    NumFmt, NumInstance, NumberingTable, Para, ParaChild, ParaProps, Row, Run,
};
use crate::report::DecisionReason;
use crate::text::{
    concat2, contains_str, cut_prefix, cut_suffix, dec, dec_nat, dec_u64, digit_of, digit_value,
    holds, opt_str, parse_u8, parsed_u8, push_char, push_u64, str_eq, strip_prefix, strip_suffix,
    to_chars,
};
use crate::walk::{collect_paras, paras, targets};

verus! {

/// The deepest level that multilevel numbering addresses.
pub const MAX_LEVELS: usize = 9;

/// The reserved number identifier that cancels numbering for one paragraph. It
/// is never registered as an instance.
pub const NO_NUMBERING_ID: u32 = 0;

/// The heading numbering pattern: for each of its pieces the native number
/// format, where there is one, and for each level the text that shows the
/// level's full ancestry.
#[derive(Debug, Clone)]
pub struct HeadingPattern {
    pub formats: Vec<Option<NumFmt>>,
    pub texts: Vec<String>,
}

/// The format of the piece that numbers a level: the last piece repeats.
pub open spec fn level_format(formats: Seq<Option<NumFmt>>, index: int) -> Option<NumFmt> {
    if index < formats.len() {
        formats[index]
    } else {
        formats.last()
    }
}

/// Whether every level of a pattern has a native format.
pub open spec fn expressible(pattern: HeadingPattern) -> bool {
    pattern.formats@.len() > 0 && forall|i: int|
        0 <= i < MAX_LEVELS ==> (#[trigger] level_format(pattern.formats@, i)) is Some
}

/// Whether a level is the shape of the `i`-th level of a heading pattern: its
/// format and text, numbered from one, without indents, and bound to the
/// heading style of its depth.
pub open spec fn is_heading_level(level: ListLevel, pattern: HeadingPattern, i: int) -> bool {
    &&& Some(level.num_fmt) == level_format(pattern.formats@, i)
    &&& level.lvl_text@ == pattern.texts@[i]@
    &&& level.start == 1
    &&& level.ind_left == 0
    &&& level.ind_hanging == 0
    &&& level.bullet_font is None
    &&& opt_str(level.pstyle) == Some("Heading"@ + dec(i + 1))
}

/// The level shapes that a heading numbering pattern maps onto. `None` when the
/// numbering is no pattern, has no pieces, or uses a numeral system without a
/// native format.
pub fn derive_levels(numbering: Option<&HeadingPattern>) -> (r: Option<Vec<ListLevel>>)
    requires
        numbering matches Some(pattern) ==> pattern.texts@.len() == MAX_LEVELS,
    ensures
        r is Some <==> (numbering matches Some(pattern) && expressible(*pattern)),
        match (r, numbering) {
            (Some(levels), Some(pattern)) => levels@.len() == MAX_LEVELS && forall|i: int|
                0 <= i < MAX_LEVELS ==> is_heading_level(#[trigger] levels@[i], *pattern, i),
            _ => true,
        },
{
    let pattern: &HeadingPattern = match numbering {
        Some(p) => p,
        None => {
            return None;
        },
    };
    let n: usize = pattern.formats.len();
    if n == 0 {
        return None;
    }
    let mut levels: Vec<ListLevel> = Vec::new();
    let mut i: usize = 0;
    while i < MAX_LEVELS
        invariant
            i <= MAX_LEVELS,
            n == pattern.formats@.len(),
            n > 0,
            numbering == Some(pattern),
            pattern.texts@.len() == MAX_LEVELS,
            levels@.len() == i,
            forall|k: int| 0 <= k < i ==> (#[trigger] level_format(pattern.formats@, k)) is Some,
            forall|k: int| 0 <= k < i ==> is_heading_level(#[trigger] levels@[k], *pattern, k),
        decreases MAX_LEVELS - i,
    {
        let format: Option<NumFmt> = if i < n {
            pattern.formats[i]
        } else {
            pattern.formats[n - 1]
        };
        assert(format == level_format(pattern.formats@, i as int));
        match format {
            None => {
                return None;
            }
            Some(num_fmt) => {
                let number: String = dec_u64((i + 1) as u64);
                levels.push(
                    ListLevel {
                        num_fmt,
                        lvl_text: pattern.texts[i].clone(),
                        start: 1,
                        ind_left: 0,
                        ind_hanging: 0,
                        bullet_font: None,
                        pstyle: Some(concat2("Heading", number.as_str())),
                    },
                );
            }
        }
        i = i + 1;
    }
    Some(levels)
}

// ---------------------------------------------------------------------------
// Rendering of one number.
// ---------------------------------------------------------------------------

/// The roman numeral of a value: the largest symbol that fits, followed by the
/// numeral of the rest.
pub open spec fn roman_of(value: nat) -> Seq<char>
    decreases value,
{
    if value >= 1000 {
        "M"@ + roman_of((value - 1000) as nat)
    } else if value >= 900 {
        "CM"@ + roman_of((value - 900) as nat)
    } else if value >= 500 {
        "D"@ + roman_of((value - 500) as nat)
    } else if value >= 400 {
        "CD"@ + roman_of((value - 400) as nat)
    } else if value >= 100 {
        "C"@ + roman_of((value - 100) as nat)
    } else if value >= 90 {
        "XC"@ + roman_of((value - 90) as nat)
    } else if value >= 50 {
        "L"@ + roman_of((value - 50) as nat)
    } else if value >= 40 {
        "XL"@ + roman_of((value - 40) as nat)
    } else if value >= 10 {
        "X"@ + roman_of((value - 10) as nat)
    } else if value >= 9 {
        "IX"@ + roman_of((value - 9) as nat)
    } else if value >= 5 {
        "V"@ + roman_of((value - 5) as nat)
    } else if value >= 4 {
        "IV"@ + roman_of((value - 4) as nat)
    } else if value >= 1 {
        "I"@ + roman_of((value - 1) as nat)
    } else {
        Seq::empty()
    }
}

/// The value of the `k`-th largest roman symbol.
pub open spec fn symbol_value(k: int) -> nat {
    if k <= 0 {
        1000
    } else if k == 1 {
        900
    } else if k == 2 {
        500
    } else if k == 3 {
        400
    } else if k == 4 {
        100
    } else if k == 5 {
        90
    } else if k == 6 {
        50
    } else if k == 7 {
        40
    } else if k == 8 {
        10
    } else if k == 9 {
        9
    } else if k == 10 {
        5
    } else if k == 11 {
        4
    } else {
        1
    }
}

/// The letters of the `k`-th largest roman symbol.
pub open spec fn symbol_text(k: int) -> Seq<char> {
    if k <= 0 {
        "M"@
    } else if k == 1 {
        "CM"@
    } else if k == 2 {
        "D"@
    } else if k == 3 {
        "CD"@
    } else if k == 4 {
        "C"@
    } else if k == 5 {
        "XC"@
    } else if k == 6 {
        "L"@
    } else if k == 7 {
        "XL"@
    } else if k == 8 {
        "X"@
    } else if k == 9 {
        "IX"@
    } else if k == 10 {
        "V"@
    } else if k == 11 {
        "IV"@
    } else {
        "I"@
    }
}

fn roman_symbol(k: usize) -> (r: (u64, &'static str))
    ensures
        r.0 == symbol_value(k as int),
        r.1@ == symbol_text(k as int),
{
    match k {
        0 => (1000, "M"),
        1 => (900, "CM"),
        2 => (500, "D"),
        3 => (400, "CD"),
        4 => (100, "C"),
        5 => (90, "XC"),
        6 => (50, "L"),
        7 => (40, "XL"),
        8 => (10, "X"),
        9 => (9, "IX"),
        10 => (5, "V"),
        11 => (4, "IV"),
        _ => (1, "I"),
    }
}

/// The upper-case roman numeral of a value, up to the largest that both
/// numbering models share.
pub fn roman(value: u64) -> (r: Option<String>)
    ensures
        opt_str(r) == (if value > 3999 {
            None
        } else {
            Some(roman_of(value as nat))
        }),
{
    if value > 3999 {
        return None;
    }
    let mut out: String = String::new();
    let mut rest: u64 = value;
    let mut k: usize = 0;
    assert(out@ + roman_of(rest as nat) =~= roman_of(value as nat));
    while k < 13
        invariant
            k <= 13,
            value <= 3999,
            rest <= value,
            k > 0 ==> rest < symbol_value(k - 1),
            out@ + roman_of(rest as nat) == roman_of(value as nat),
        decreases 13 - k,
    {
        let (amount, numeral) = roman_symbol(k);
        while rest >= amount
            invariant
                k < 13,
                value <= 3999,
                rest <= value,
                amount == symbol_value(k as int),
                numeral@ == symbol_text(k as int),
                k > 0 ==> rest < symbol_value(k - 1),
                out@ + roman_of(rest as nat) == roman_of(value as nat),
            decreases rest,
        {
            let ghost before = out@;
            out.append(numeral);
            proof {
                reveal_with_fuel(roman_of, 2);
                assert(roman_of(rest as nat) == symbol_text(k as int) + roman_of(
                    (rest - amount) as nat,
                ));
                assert(out@ + roman_of((rest - amount) as nat) =~= before + (symbol_text(k as int)
                    + roman_of((rest - amount) as nat)));
            }
            rest = rest - amount;
        }
        k = k + 1;
    }
    assert(rest == 0);
    assert(out@ =~= out@ + roman_of(0));
    Some(out)
}

/// The letter at `index` past `base`, repeated once more for every full turn
/// through the alphabet.
pub open spec fn letters_of(value: nat, base: char) -> Option<Seq<char>> {
    let index = value - 1;
    let code = base as int + index % 26;
    if index > u32::MAX || 0xD800 <= code < 0xE000 || code > 0x10FFFF {
        None
    } else {
        Some(Seq::new((index / 26 + 1) as nat, |i: int| code as char))
    }
}

/// Alphabetic numbering: `a` to `z`, then the letter repeats (`aa`, `bb`) rather
/// than carrying.
pub fn letter(value: u64, base: char) -> (r: Option<String>)
    requires
        value >= 1,
    ensures
        opt_str(r) == letters_of(value as nat, base),
{
    let index64: u64 = value - 1;
    if index64 > 0xFFFF_FFFF {
        return None;
    }
    let index: u32 = index64 as u32;
    let code: u32 = base as u32 + index % 26;
    match char::from_u32(code) {
        None => None,
        Some(c) => {
            let times: u32 = index / 26 + 1;
            let mut out: String = String::new();
            let mut i: u32 = 0;
            while i < times
                invariant
                    i <= times,
                    out@ == Seq::new(i as nat, |k: int| c),
                decreases times - i,
            {
                push_char(&mut out, c);
                i = i + 1;
                assert(out@ =~= Seq::new(i as nat, |k: int| c));
            }
            assert(out@ =~= letters_of(value as nat, base).unwrap());
            Some(out)
        },
    }
}

/// The lower-case form of one upper-case roman letter.
pub open spec fn roman_lower(c: char) -> char {
    if c == 'M' {
        'm'
    } else if c == 'D' {
        'd'
    } else if c == 'C' {
        'c'
    } else if c == 'L' {
        'l'
    } else if c == 'X' {
        'x'
    } else if c == 'V' {
        'v'
    } else if c == 'I' {
        'i'
    } else {
        c
    }
}

fn lower_roman(s: &str) -> (r: String)
    ensures
        r@ == s@.map_values(|c: char| roman_lower(c)),
{
    let cs: Vec<char> = to_chars(s);
    let mut out: String = String::new();
    let mut i: usize = 0;
    while i < cs.len()
        invariant
            i <= cs.len(),
            cs@ == s@,
            out@ == s@.take(i as int).map_values(|c: char| roman_lower(c)),
        decreases cs.len() - i,
    {
        let c: char = cs[i];
        let low: char = if c == 'M' {
            'm'
        } else if c == 'D' {
            'd'
        } else if c == 'C' {
            'c'
        } else if c == 'L' {
            'l'
        } else if c == 'X' {
            'x'
        } else if c == 'V' {
            'v'
        } else if c == 'I' {
            'i'
        } else {
            c
        };
        push_char(&mut out, low);
        i = i + 1;
        assert(out@ =~= s@.take(i as int).map_values(|c: char| roman_lower(c)));
    }
    assert(s@.take(i as int) =~= s@);
    out
}

/// A counter value in a number format. A level that nothing has reached yet has
/// the value zero, which only the decimal format can show.
pub open spec fn counter_text(fmt: NumFmt, value: nat) -> Option<Seq<char>> {
    if value == 0 {
        if fmt == NumFmt::Decimal {
            Some("0"@)
        } else {
            None
        }
    } else {
        match fmt {
            NumFmt::Decimal => Some(dec_nat(value)),
            NumFmt::LowerLetter => letters_of(value, 'a'),
            NumFmt::UpperLetter => letters_of(value, 'A'),
            NumFmt::LowerRoman => if value > 3999 {
                None
            } else {
                Some(roman_of(value).map_values(|c: char| roman_lower(c)))
            },
            NumFmt::UpperRoman => if value > 3999 {
                None
            } else {
                Some(roman_of(value))
            },
            NumFmt::Bullet => None,
            NumFmt::Off => None,
        }
    }
}

/// Formats a counter value.
pub fn format_counter(fmt: NumFmt, value: u64) -> (r: Option<String>)
    ensures
        opt_str(r) == counter_text(fmt, value as nat),
{
    if value == 0 {
        return if fmt == NumFmt::Decimal {
            Some("0".to_owned())
        } else {
            None
        };
    }
    match fmt {
        NumFmt::Decimal => {
            let mut s: String = String::new();
            push_u64(&mut s, value);
            assert(s@ =~= dec_nat(value as nat));
            Some(s)
        },
        NumFmt::LowerLetter => letter(value, 'a'),
        NumFmt::UpperLetter => letter(value, 'A'),
        NumFmt::LowerRoman => match roman(value) {
            Some(numeral) => Some(lower_roman(numeral.as_str())),
            None => None,
        },
        NumFmt::UpperRoman => roman(value),
        NumFmt::Bullet => None,
        NumFmt::Off => None,
    }
}

/// A text in front of an optional one.
pub open spec fn before(p: Seq<char>, rest: Option<Seq<char>>) -> Option<Seq<char>> {
    match rest {
        Some(r) => Some(p + r),
        None => None,
    }
}

/// What `%` followed by the character `c` stands for: the counter of that level
/// in that level's own format.
pub open spec fn placeholder(levels: Seq<ListLevel>, counters: Seq<u64>, c: char) -> Option<
    Seq<char>,
> {
    match digit_value(c) {
        Some(d) => if 1 <= d <= levels.len() && d <= counters.len() {
            counter_text(levels[d - 1].num_fmt, counters[d - 1] as nat)
        } else {
            None
        },
        None => None,
    }
}

/// A level text from index `i` on, with its placeholders replaced.
pub open spec fn rendered_from(
    levels: Seq<ListLevel>,
    counters: Seq<u64>,
    text: Seq<char>,
    i: int,
) -> Option<Seq<char>>
    decreases text.len() - i,
{
    if i < 0 || i >= text.len() {
        Some(Seq::empty())
    } else if text[i] == '%' {
        if i + 1 < text.len() {
            match placeholder(levels, counters, text[i + 1]) {
                Some(value) => before(value, rendered_from(levels, counters, text, i + 2)),
                None => None,
            }
        } else {
            None
        }
    } else {
        before(seq![text[i]], rendered_from(levels, counters, text, i + 1))
    }
}

/// The number that a level shows. A level that is not there shows none.
pub open spec fn level_number(levels: Seq<ListLevel>, counters: Seq<u64>, index: int) -> Option<
    Seq<char>,
> {
    if 0 <= index < levels.len() {
        rendered_from(levels, counters, levels[index].lvl_text@, 0)
    } else {
        None
    }
}

/// Renders the number of a level: its text with every `%n` replaced by counter
/// `n` in the format of level `n`. `None` for a number that no level can state,
/// notably a zero counter in a roman or alphabetic format.
pub fn render(levels: &Vec<ListLevel>, index: usize, counters: &Vec<u64>) -> (r: Option<String>)
    requires
        index < levels@.len(),
    ensures
        opt_str(r) == rendered_from(levels@, counters@, levels@[index as int].lvl_text@, 0),
{
    let text: Vec<char> = to_chars(levels[index].lvl_text.as_str());
    let mut out: String = String::new();
    let mut i: usize = 0;
    assert(before(out@, rendered_from(levels@, counters@, text@, 0)) =~= rendered_from(
        levels@,
        counters@,
        text@,
        0,
    )) by {
        match rendered_from(levels@, counters@, text@, 0) {
            Some(t) => {
                assert(out@ + t =~= t);
            },
            None => {},
        }
    }
    while i < text.len()
        invariant
            i <= text.len(),
            index < levels@.len(),
            text@ == levels@[index as int].lvl_text@,
            before(out@, rendered_from(levels@, counters@, text@, i as int)) == rendered_from(
                levels@,
                counters@,
                text@,
                0,
            ),
        decreases text.len() - i,
    {
        let c: char = text[i];
        let ghost prior = out@;
        if c == '%' {
            if i + 1 >= text.len() {
                return None;
            }
            let level: usize = match digit_of(text[i + 1]) {
                Some(d) => d as usize,
                None => {
                    return None;
                },
            };
            if level == 0 || level > levels.len() || level > counters.len() {
                return None;
            }
            match format_counter(levels[level - 1].num_fmt, counters[level - 1]) {
                None => {
                    return None;
                }
                Some(value) => {
                    out.append(value.as_str());
                    proof {
                        let rest = rendered_from(levels@, counters@, text@, i + 2);
                        if rest is Some {
                            assert(out@ + rest.unwrap() =~= prior + (value@ + rest.unwrap()));
                        }
                    }
                }
            }
            i = i + 2;
        } else {
            push_char(&mut out, c);
            proof {
                let rest = rendered_from(levels@, counters@, text@, i + 1);
                if rest is Some {
                    assert(out@ + rest.unwrap() =~= prior + (seq![c] + rest.unwrap()));
                }
            }
            i = i + 1;
        }
    }
    assert(out@ + Seq::<char>::empty() =~= out@);
    Some(out)
}

// ---------------------------------------------------------------------------
// The headings of a document.
// ---------------------------------------------------------------------------

/// The heading level that a paragraph style names.
pub open spec fn style_level(style: Option<Seq<char>>) -> Option<u8> {
    match style {
        Some(name) => match cut_prefix(name, "Heading"@) {
            Some(rest) => match parsed_u8(rest) {
                Some(level) => if level > 0 {
                    Some(level)
                } else {
                    None
                },
                None => None,
            },
            None => None,
        },
        None => None,
    }
}

/// The heading level that a paragraph style names.
pub fn heading_level(style: &Option<String>) -> (r: Option<u8>)
    ensures
        r == style_level(opt_str(*style)),
{
    match style {
        None => None,
        Some(name) => match strip_prefix(name.as_str(), "Heading") {
            None => None,
            Some(rest) => match parse_u8(rest.as_str()) {
                Some(level) => if level > 0 {
                    Some(level)
                } else {
                    None
                },
                None => None,
            },
        },
    }
}

/// The heading level of a paragraph.
pub open spec fn para_level(para: Para) -> Option<u8> {
    style_level(opt_str(para.props.style))
}

/// The character style of a baked heading number.
pub open spec fn number_style_of(level: u8) -> Seq<char> {
    "TypstHeadingNumber"@ + dec(level as int)
}

/// The character style of a baked heading number.
pub fn number_style(level: u8) -> (r: String)
    ensures
        r@ == number_style_of(level),
{
    let n: String = dec_u64(level as u64);
    concat2("TypstHeadingNumber", n.as_str())
}

/// Whether a paragraph child is a text run in the given character style.
pub open spec fn is_styled_text(child: ParaChild, style: Seq<char>) -> bool {
    child matches ParaChild::Run(Run::Text { props, .. }) && opt_str(props.style) == Some(style)
}

/// The index of the first text run in the given style from `i` on, or the
/// length.
pub open spec fn number_index(content: Seq<ParaChild>, style: Seq<char>, i: int) -> int
    decreases content.len() - i,
{
    if 0 <= i < content.len() && !is_styled_text(content[i], style) {
        number_index(content, style, i + 1)
    } else {
        i
    }
}

/// The text of a paragraph child that is a text run.
pub open spec fn child_text(child: ParaChild) -> Seq<char> {
    match child {
        ParaChild::Run(Run::Text { text, .. }) => text@,
        _ => Seq::empty(),
    }
}

/// The baked number of a heading paragraph.
pub open spec fn frozen(para: Para, level: u8) -> Option<Seq<char>> {
    let at = number_index(para.content@, number_style_of(level), 0);
    if at < para.content@.len() {
        Some(child_text(para.content@[at]))
    } else {
        None
    }
}

/// The level and the baked number of every heading among paragraphs.
pub open spec fn headings_among(ps: Seq<Para>) -> Seq<(u8, Option<Seq<char>>)>
    decreases ps.len(),
{
    if ps.len() == 0 {
        Seq::empty()
    } else {
        let before = headings_among(ps.drop_last());
        match para_level(ps.last()) {
            Some(level) => before.push((level, frozen(ps.last(), level))),
            None => before,
        }
    }
}

/// A heading's level and baked number.
#[derive(Debug, Clone, PartialEq, Eq)]
pub struct HeadingNumber {
    pub level: u8,
    pub number: Option<String>,
}

/// What a sequence of heading numbers says.
pub open spec fn numbers_view(s: Seq<HeadingNumber>) -> Seq<(u8, Option<Seq<char>>)> {
    s.map_values(|h: HeadingNumber| (h.level, opt_str(h.number)))
}

fn find_number(content: &Vec<ParaChild>, style: &str) -> (r: usize)
    ensures
        r == number_index(content@, style@, 0),
        r <= content@.len(),
        r < content@.len() ==> is_styled_text(content@[r as int], style@),
{
    let mut i: usize = 0;
    while i < content.len()
        invariant
            i <= content.len(),
            number_index(content@, style@, 0) == number_index(content@, style@, i as int),
        decreases content.len() - i,
    {
        if let ParaChild::Run(Run::Text { props, .. }) = &content[i] {
            if let Some(name) = &props.style {
                if str_eq(name.as_str(), style) {
                    return i;
                }
            }
        }
        i = i + 1;
    }
    i
}

fn frozen_number(para: &Para, level: u8) -> (r: Option<String>)
    ensures
        opt_str(r) == frozen(*para, level),
{
    let style: String = number_style(level);
    let at: usize = find_number(&para.content, style.as_str());
    if at < para.content.len() {
        match &para.content[at] {
            ParaChild::Run(Run::Text { text, .. }) => Some(text.clone()),
            _ => Some(String::new()),
        }
    } else {
        None
    }
}

/// Collects the level and the baked number of every heading of a block tree, in
/// document order.
pub fn collect_headings(blocks: &Vec<Block>) -> (r: Vec<HeadingNumber>)
    ensures
        numbers_view(r@) == headings_among(paras(blocks@)),
{
    let mut ps: Vec<&Para> = Vec::new();
    collect_paras(blocks, &mut ps);
    assert(targets(ps@) =~= paras(blocks@));
    let mut out: Vec<HeadingNumber> = Vec::new();
    let mut i: usize = 0;
    assert(numbers_view(out@) =~= headings_among(targets(ps@).take(0)));
    while i < ps.len()
        invariant
            i <= ps.len(),
            numbers_view(out@) == headings_among(targets(ps@).take(i as int)),
        decreases ps.len() - i,
    {
        let ghost all = targets(ps@);
        assert(all.take(i + 1).drop_last() =~= all.take(i as int));
        assert(all.take(i + 1).last() == *ps@[i as int]);
        let para: &Para = ps[i];
        if let Some(level) = heading_level(&para.props.style) {
            let ghost prior = out@;
            out.push(HeadingNumber { level, number: frozen_number(para, level) });
            assert(numbers_view(out@) =~= numbers_view(prior).push((level, frozen(*para, level))));
        }
        i = i + 1;
    }
    assert(targets(ps@).take(i as int) =~= targets(ps@));
    out
}

/// Whether a block tree holds a heading.
pub open spec fn has_heading(blocks: Seq<Block>) -> bool {
    exists|i: int| 0 <= i < paras(blocks).len() && para_level(#[trigger] paras(blocks)[i]) is Some
}

fn contains_heading(blocks: &Vec<Block>) -> (r: bool)
    ensures
        r == has_heading(blocks@),
{
    let mut ps: Vec<&Para> = Vec::new();
    collect_paras(blocks, &mut ps);
    assert(targets(ps@) =~= paras(blocks@));
    let mut i: usize = 0;
    while i < ps.len()
        invariant
            i <= ps.len(),
            targets(ps@) == paras(blocks@),
            forall|k: int| 0 <= k < i ==> para_level(#[trigger] paras(blocks@)[k]) is None,
        decreases ps.len() - i,
    {
        assert(paras(blocks@)[i as int] == *ps@[i as int]);
        if heading_level(&ps[i].props.style).is_some() {
            return true;
        }
        i = i + 1;
    }
    assert(paras(blocks@).len() == ps@.len());
    false
}

/// Whether a run, or a run in a field's cached result, retrieves a heading
/// number through its character style.
pub open spec fn run_uses_styleref(run: Run) -> bool
    decreases run,
{
    match run {
        Run::Field(field) => holds(field.instr@, "STYLEREF TypstHeadingNumber"@)
            || runs_use_styleref(field.result@),
        _ => false,
    }
}

/// Whether some run retrieves a heading number through its character style.
pub open spec fn runs_use_styleref(runs: Seq<Run>) -> bool
    decreases runs,
{
    exists|i: int| 0 <= i < runs.len() && run_uses_styleref(#[trigger] runs[i])
}

/// Whether a paragraph child retrieves a heading number.
pub open spec fn child_uses_styleref(child: ParaChild) -> bool {
    match child {
        ParaChild::Run(run) => run_uses_styleref(run),
        ParaChild::Hyperlink { runs, .. } => runs_use_styleref(runs@),
        _ => false,
    }
}

/// Whether a paragraph retrieves a heading number.
pub open spec fn para_uses_styleref(para: Para) -> bool {
    exists|i: int|
        0 <= i < para.content@.len() && child_uses_styleref(#[trigger] para.content@[i])
}

/// Whether a block tree retrieves a heading number.
pub open spec fn blocks_use_styleref(blocks: Seq<Block>) -> bool {
    exists|i: int| 0 <= i < paras(blocks).len() && para_uses_styleref(#[trigger] paras(blocks)[i])
}

fn run_has_styleref(run: &Run) -> (r: bool)
    ensures
        r == run_uses_styleref(*run),
    decreases *run,
{
    match run {
        Run::Field(field) => {
            if contains_str(field.instr.as_str(), "STYLEREF TypstHeadingNumber") {
                true
            } else {
                runs_have_styleref(&field.result)
            }
        },
        _ => false,
    }
}

fn runs_have_styleref(runs: &Vec<Run>) -> (r: bool)
    ensures
        r == runs_use_styleref(runs@),
    decreases runs@,
{
    let mut i: usize = 0;
    while i < runs.len()
        invariant
            i <= runs.len(),
            forall|k: int| 0 <= k < i ==> !run_uses_styleref(#[trigger] runs@[k]),
        decreases runs.len() - i,
    {
        proof {
            assert(decreases_to!(runs@ => runs@[i as int]));
        }
        if run_has_styleref(&runs[i]) {
            return true;
        }
        i = i + 1;
    }
    false
}

fn para_has_styleref(para: &Para) -> (r: bool)
    ensures
        r == para_uses_styleref(*para),
{
    let mut i: usize = 0;
    while i < para.content.len()
        invariant
            i <= para.content.len(),
            forall|k: int| 0 <= k < i ==> !child_uses_styleref(#[trigger] para.content@[k]),
        decreases para.content.len() - i,
    {
        let found: bool = match &para.content[i] {
            ParaChild::Run(run) => run_has_styleref(run),
            ParaChild::Hyperlink { runs, .. } => runs_have_styleref(runs),
            _ => false,
        };
        assert(found == child_uses_styleref(para.content@[i as int]));
        if found {
            return true;
        }
        i = i + 1;
    }
    false
}

fn blocks_have_styleref(blocks: &Vec<Block>) -> (r: bool)
    ensures
        r == blocks_use_styleref(blocks@),
{
    let mut ps: Vec<&Para> = Vec::new();
    collect_paras(blocks, &mut ps);
    assert(targets(ps@) =~= paras(blocks@));
    let mut i: usize = 0;
    while i < ps.len()
        invariant
            i <= ps.len(),
            targets(ps@) == paras(blocks@),
            forall|k: int| 0 <= k < i ==> !para_uses_styleref(#[trigger] paras(blocks@)[k]),
        decreases ps.len() - i,
    {
        assert(paras(blocks@)[i as int] == *ps@[i as int]);
        if para_has_styleref(ps[i]) {
            return true;
        }
        i = i + 1;
    }
    assert(paras(blocks@).len() == ps@.len());
    false
}

// ---------------------------------------------------------------------------
// The decision.
// ---------------------------------------------------------------------------

/// The document parts that this pass reads and rewrites.
pub struct Parts {
    pub body: Vec<Block>,
    pub footnotes: Vec<Footnote>,
    pub headers: Vec<HdrFtrPart>,
    pub footers: Vec<HdrFtrPart>,
}

/// Whether a note, a header or a footer holds a heading.
pub open spec fn heading_outside_body(parts: Parts) -> bool {
    ||| exists|i: int|
        0 <= i < parts.footnotes@.len() && has_heading((#[trigger] parts.footnotes@[i]).blocks@)
    ||| exists|i: int|
        0 <= i < parts.headers@.len() && has_heading((#[trigger] parts.headers@[i]).blocks@)
    ||| exists|i: int|
        0 <= i < parts.footers@.len() && has_heading((#[trigger] parts.footers@[i]).blocks@)
}

/// Whether any part retrieves a heading number through its character style.
pub open spec fn styleref_anywhere(parts: Parts) -> bool {
    ||| blocks_use_styleref(parts.body@)
    ||| exists|i: int|
        0 <= i < parts.footnotes@.len() && blocks_use_styleref(
            (#[trigger] parts.footnotes@[i]).blocks@,
        )
    ||| exists|i: int|
        0 <= i < parts.headers@.len() && blocks_use_styleref(
            (#[trigger] parts.headers@[i]).blocks@,
        )
    ||| exists|i: int|
        0 <= i < parts.footers@.len() && blocks_use_styleref(
            (#[trigger] parts.footers@[i]).blocks@,
        )
}

/// Whether a heading takes part in numbering: it has a number and its level is
/// one that multilevel numbering addresses.
pub open spec fn counts(heading: (u8, Option<Seq<char>>)) -> bool {
    1 <= heading.0 <= MAX_LEVELS && heading.1 is Some
}

/// The level counters after one heading at `index`: its own counter steps, and
/// all deeper ones start over.
pub open spec fn stepped(counters: Seq<u64>, index: int) -> Seq<u64> {
    Seq::new(
        counters.len(),
        |i: int|
            if i < index {
                counters[i]
            } else if i == index {
                (counters[i] + 1) as u64
            } else {
                0u64
            },
    )
}

/// The level counters after the first `n` headings. Headings that take no part
/// in numbering leave them alone.
pub open spec fn counters_after(headings: Seq<(u8, Option<Seq<char>>)>, n: int) -> Seq<u64>
    decreases n,
{
    if n <= 0 {
        Seq::new(MAX_LEVELS as nat, |i: int| 0u64)
    } else {
        let before = counters_after(headings, n - 1);
        if counts(headings[n - 1]) {
            stepped(before, headings[n - 1].0 - 1)
        } else {
            before
        }
    }
}

/// Whether replaying multilevel numbering gives the `n`-th heading the number it
/// carries.
pub open spec fn number_agrees(
    levels: Seq<ListLevel>,
    headings: Seq<(u8, Option<Seq<char>>)>,
    n: int,
) -> bool {
    counts(headings[n]) ==> level_number(
        levels,
        counters_after(headings, n + 1),
        headings[n].0 - 1,
    ) == headings[n].1
}

/// Whether replaying multilevel numbering reproduces every heading's number.
pub open spec fn replay_agrees(
    levels: Seq<ListLevel>,
    headings: Seq<(u8, Option<Seq<char>>)>,
) -> bool {
    forall|n: int| 0 <= n < headings.len() ==> #[trigger] number_agrees(levels, headings, n)
}

/// Whether the numbers of headings can go live beside the given parts.
pub open spec fn headings_go_live(
    levels: Option<&Vec<ListLevel>>,
    headings: Seq<(u8, Option<Seq<char>>)>,
    parts: Parts,
) -> bool {
    match levels {
        Some(l) => !heading_outside_body(parts) && !styleref_anywhere(parts) && replay_agrees(
            l@,
            headings,
        ),
        None => false,
    }
}

/// Whether the document's heading numbers can go live.
pub open spec fn can_go_live(levels: Option<&Vec<ListLevel>>, parts: Parts) -> bool {
    headings_go_live(levels, headings_among(paras(parts.body@)), parts)
}

fn parts_block_live(parts: &Parts) -> (r: bool)
    ensures
        r == (heading_outside_body(*parts) || styleref_anywhere(*parts)),
{
    let mut found: bool = blocks_have_styleref(&parts.body);
    let mut i: usize = 0;
    while i < parts.footnotes.len()
        invariant
            i <= parts.footnotes.len(),
            found == (blocks_use_styleref(parts.body@) || (exists|k: int|
                0 <= k < i && (has_heading((#[trigger] parts.footnotes@[k]).blocks@)
                    || blocks_use_styleref(parts.footnotes@[k].blocks@)))),
        decreases parts.footnotes.len() - i,
    {
        let h: bool = contains_heading(&parts.footnotes[i].blocks);
        let s: bool = blocks_have_styleref(&parts.footnotes[i].blocks);
        found = found || h || s;
        i = i + 1;
    }
    let ghost base = found;
    let mut j: usize = 0;
    while j < parts.headers.len()
        invariant
            j <= parts.headers.len(),
            found == (base || (exists|k: int|
                0 <= k < j && (has_heading((#[trigger] parts.headers@[k]).blocks@)
                    || blocks_use_styleref(parts.headers@[k].blocks@)))),
        decreases parts.headers.len() - j,
    {
        let h: bool = contains_heading(&parts.headers[j].blocks);
        let s: bool = blocks_have_styleref(&parts.headers[j].blocks);
        found = found || h || s;
        j = j + 1;
    }
    let ghost base2 = found;
    let mut k: usize = 0;
    while k < parts.footers.len()
        invariant
            k <= parts.footers.len(),
            found == (base2 || (exists|m: int|
                0 <= m < k && (has_heading((#[trigger] parts.footers@[m]).blocks@)
                    || blocks_use_styleref(parts.footers@[m].blocks@)))),
        decreases parts.footers.len() - k,
    {
        let h: bool = contains_heading(&parts.footers[k].blocks);
        let s: bool = blocks_have_styleref(&parts.footers[k].blocks);
        found = found || h || s;
        k = k + 1;
    }
    found
}

fn step_counters(counters: &mut Vec<u64>, index: usize)
    requires
        index < old(counters)@.len(),
        old(counters)@[index as int] < u64::MAX,
    ensures
        final(counters)@ == stepped(old(counters)@, index as int),
{
    let n: usize = counters.len();
    let v: u64 = counters[index];
    counters.set(index, v + 1);
    let mut i: usize = index + 1;
    while i < n
        invariant
            index < i <= n,
            n == counters@.len(),
            n == old(counters)@.len(),
            forall|k: int| 0 <= k < index ==> counters@[k] == old(counters)@[k],
            counters@[index as int] == old(counters)@[index as int] + 1,
            forall|k: int| index < k < i ==> counters@[k] == 0,
        decreases n - i,
    {
        counters.set(i, 0);
        i = i + 1;
    }
    assert(counters@ =~= stepped(old(counters)@, index as int));
}

/// Whether replaying multilevel numbering over the headings reproduces the
/// number of each.
pub fn replay(levels: &Vec<ListLevel>, headings: &Vec<HeadingNumber>) -> (r: bool)
    ensures
        r == replay_agrees(levels@, numbers_view(headings@)),
{
    let mut counters: Vec<u64> = Vec::new();
    let mut z: usize = 0;
    while z < MAX_LEVELS
        invariant
            z <= MAX_LEVELS,
            counters@ == Seq::new(z as nat, |i: int| 0u64),
        decreases MAX_LEVELS - z,
    {
        counters.push(0);
        z = z + 1;
        assert(counters@ =~= Seq::new(z as nat, |i: int| 0u64));
    }
    let ghost view = numbers_view(headings@);
    let mut n: usize = 0;
    while n < headings.len()
        invariant
            n <= headings.len(),
            view == numbers_view(headings@),
            counters@ == counters_after(view, n as int),
            counters@.len() == MAX_LEVELS,
            forall|k: int| 0 <= k < MAX_LEVELS ==> counters@[k] <= n,
            forall|k: int| 0 <= k < n ==> #[trigger] number_agrees(levels@, view, k),
        decreases headings.len() - n,
    {
        let heading: &HeadingNumber = &headings[n];
        assert(view[n as int] == (heading.level, opt_str(heading.number)));
        if heading.level >= 1 && heading.level as usize <= MAX_LEVELS {
            if let Some(expected) = &heading.number {
                let index: usize = heading.level as usize - 1;
                step_counters(&mut counters, index);
                assert(counters@ == counters_after(view, n + 1));
                let got: Option<String> = if index < levels.len() {
                    render(levels, index, &counters)
                } else {
                    None
                };
                let same: bool = match got {
                    Some(text) => text == *expected,
                    None => false,
                };
                if !same {
                    assert(!number_agrees(levels@, view, n as int));
                    return false;
                }
            }
        }
        n = n + 1;
    }
    true
}

/// Decides whether multilevel numbering can reproduce the numbers of headings:
/// returns the levels to register, or why it cannot.
pub fn plan(headings: &Vec<HeadingNumber>, levels: Option<&Vec<ListLevel>>, parts: &Parts) -> (r:
    Result<Vec<ListLevel>, DecisionReason>)
    ensures
        r is Ok <==> headings_go_live(levels, numbers_view(headings@), *parts),
        r matches Ok(own) ==> levels_view(own@) == levels_view(levels.unwrap()@),
        r matches Err(reason) ==> reason == DecisionReason::TypstOwnedHeadingNumber,
{
    match levels {
        None => Err(DecisionReason::TypstOwnedHeadingNumber),
        Some(l) => {
            if parts_block_live(parts) {
                return Err(DecisionReason::TypstOwnedHeadingNumber);
            }
            if replay(l, headings) {
                Ok(copy_levels(l))
            } else {
                Err(DecisionReason::TypstOwnedHeadingNumber)
            }
        },
    }
}

// ---------------------------------------------------------------------------
// The rewrite.
// ---------------------------------------------------------------------------

/// Paragraph content without the number run at `at` and without the tab behind
/// it, which sits either directly there or just past a bookmark's end.
pub open spec fn without_number(content: Seq<ParaChild>, at: int) -> Seq<ParaChild> {
    let rest = content.remove(at);
    let tab = if at < rest.len() && rest[at] is BookmarkEnd {
        at + 1
    } else {
        at
    };
    if tab < rest.len() && rest[tab] is Run && rest[tab]->Run_0 is Tab {
        rest.remove(tab)
    } else {
        rest
    }
}

/// The name of the bookmark that starts directly in front of index `at`.
pub open spec fn emptied_bookmark(content: Seq<ParaChild>, at: int) -> Seq<Seq<char>> {
    if 0 < at <= content.len() {
        match content[at - 1] {
            ParaChild::BookmarkStart { name, .. } => seq![name@],
            _ => Seq::empty(),
        }
    } else {
        Seq::empty()
    }
}

/// Whether a paragraph's baked number gives way to live numbering: a heading
/// within reach of numbering only.
pub open spec fn rewrites(para: Para) -> bool {
    para_level(para) matches Some(level) && level <= MAX_LEVELS
}

/// The bookmarks that lose their content when a paragraph's number goes live.
pub open spec fn para_emptied(para: Para) -> Seq<Seq<char>> {
    match para_level(para) {
        Some(level) => {
            let at = number_index(para.content@, number_style_of(level), 0);
            if level <= MAX_LEVELS && at < para.content@.len() {
                emptied_bookmark(para.content@, at)
            } else {
                Seq::empty()
            }
        },
        None => Seq::empty(),
    }
}

/// The bookmarks that lose their content when the numbers of the paragraphs go
/// live.
pub open spec fn emptied_among(ps: Seq<Para>) -> Seq<Seq<char>>
    decreases ps.len(),
{
    if ps.len() == 0 {
        Seq::empty()
    } else {
        emptied_among(ps.drop_last()) + para_emptied(ps.last())
    }
}

/// Whether `new` is `old` with its baked number given over to live numbering. A
/// heading without a number opts out of its style's numbering instead.
pub open spec fn para_stripped(old: Para, new: Para) -> bool {
    match para_level(old) {
        Some(level) => if level > MAX_LEVELS {
            new == old
        } else {
            let at = number_index(old.content@, number_style_of(level), 0);
            if at < old.content@.len() {
                new.props == old.props && new.content@ == without_number(old.content@, at)
            } else {
                new.content == old.content && new.props == (ParaProps {
                    num: Some((NO_NUMBERING_ID, (level - 1) as u8)),
                    ..old.props
                })
            }
        },
        None => new == old,
    }
}

/// Whether `new` is `old` with every baked number given over.
pub open spec fn block_stripped(old: Block, new: Block) -> bool
    decreases old,
{
    match old {
        Block::Para(p) => new is Para && para_stripped(p, new->Para_0),
        Block::Table(t) => {
            &&& new is Table
            &&& new->Table_0.props == t.props
            &&& new->Table_0.grid == t.grid
            &&& rows_stripped(t.rows@, new->Table_0.rows@)
        },
        _ => new == old,
    }
}

/// Whether blocks are stripped one by one.
pub open spec fn blocks_stripped(old: Seq<Block>, new: Seq<Block>) -> bool
    decreases old,
{
    old.len() == new.len() && forall|i: int|
        #![trigger old[i]]
        #![trigger new[i]]
        0 <= i < old.len() ==> block_stripped(old[i], new[i])
}

/// Whether the cells of rows are stripped one by one.
pub open spec fn rows_stripped(old: Seq<Row>, new: Seq<Row>) -> bool
    decreases old,
{
    old.len() == new.len() && forall|i: int|
        #![trigger old[i]]
        #![trigger new[i]]
        0 <= i < old.len() ==> {
            &&& new[i].header == old[i].header
            &&& new[i].cant_split == old[i].cant_split
            &&& new[i].height == old[i].height
            &&& cells_stripped(old[i].cells@, new[i].cells@)
        }
}

/// Whether the blocks of cells are stripped, and nothing else changes.
pub open spec fn cells_stripped(old: Seq<Cell>, new: Seq<Cell>) -> bool
    decreases old,
{
    old.len() == new.len() && forall|i: int|
        #![trigger old[i]]
        #![trigger new[i]]
        0 <= i < old.len() ==> {
            &&& new[i] == (Cell { blocks: new[i].blocks, ..old[i] })
            &&& blocks_stripped(old[i].blocks@, new[i].blocks@)
        }
}

/// The characters of strings.
pub open spec fn names_view(s: Seq<String>) -> Seq<Seq<char>> {
    s.map_values(|n: String| n@)
}

fn strip_para(para: &mut Para, emptied: &mut Vec<String>)
    ensures
        para_stripped(*old(para), *final(para)),
        names_view(final(emptied)@) == names_view(old(emptied)@) + para_emptied(*old(para)),
{
    let ghost names = names_view(emptied@);
    assert(names =~= names + Seq::<Seq<char>>::empty());
    match heading_level(&para.props.style) {
        None => {}
        Some(level) => {
            if level as usize > MAX_LEVELS {
                return;
            }
            let style: String = number_style(level);
            let at: usize = find_number(&para.content, style.as_str());
            if at >= para.content.len() {
                para.props.num = Some((NO_NUMBERING_ID, level - 1));
                return;
            }
            if at > 0 {
                if let ParaChild::BookmarkStart { name, .. } = &para.content[at - 1] {
                    emptied.push(name.clone());
                    assert(names_view(emptied@) =~= names + seq![name@]);
                }
            }
            let _ = para.content.remove(at);
            let tab: usize = if at < para.content.len() && is_bookmark_end(&para.content[at]) {
                at + 1
            } else {
                at
            };
            if tab < para.content.len() && is_tab(&para.content[tab]) {
                let _ = para.content.remove(tab);
            }
        }
    }
}

fn is_bookmark_end(child: &ParaChild) -> (r: bool)
    ensures
        r == (child is BookmarkEnd),
{
    match child {
        ParaChild::BookmarkEnd { .. } => true,
        _ => false,
    }
}

fn is_tab(child: &ParaChild) -> (r: bool)
    ensures
        r == (child is Run && child->Run_0 is Tab),
{
    match child {
        ParaChild::Run(Run::Tab) => true,
        _ => false,
    }
}

fn strip_block(block: &mut Block, emptied: &mut Vec<String>)
    ensures
        block_stripped(*old(block), *final(block)),
        names_view(final(emptied)@) == names_view(old(emptied)@) + emptied_among(
            crate::walk::block_paras(*old(block)),
        ),
    decreases *old(block),
{
    let ghost names = names_view(emptied@);
    assert(names =~= names + Seq::<Seq<char>>::empty());
    match block {
        Block::Para(para) => {
            let ghost p = *para;
            strip_para(para, emptied);
            proof {
                let one = seq![p];
                assert(one.drop_last() =~= Seq::<Para>::empty());
                assert(emptied_among(one.drop_last()) =~= Seq::<Seq<char>>::empty());
                assert(emptied_among(one) =~= para_emptied(p));
            }
        }
        Block::Table(tbl) => {
            strip_rows(&mut tbl.rows, emptied);
        }
        _ => {}
    }
}

/// Drops the baked number of each heading and the tab behind it, and opts
/// headings without a number out of numbering. A bookmark that wrapped a number
/// stays, now empty; the names of those are collected.
pub fn strip_frozen_numbers(blocks: &mut Vec<Block>, emptied: &mut Vec<String>)
    ensures
        blocks_stripped(old(blocks)@, final(blocks)@),
        names_view(final(emptied)@) == names_view(old(emptied)@) + emptied_among(
            paras(old(blocks)@),
        ),
    decreases old(blocks)@,
{
    let mut i: usize = 0;
    let n: usize = blocks.len();
    assert(names_view(emptied@) =~= names_view(old(emptied)@) + emptied_among(
        paras(old(blocks)@.take(0)),
    ));
    while i < n
        invariant
            i <= n,
            n == blocks@.len(),
            n == old(blocks)@.len(),
            forall|k: int| i <= k < n ==> blocks@[k] == old(blocks)@[k],
            forall|k: int| 0 <= k < i ==> block_stripped(old(blocks)@[k], #[trigger] blocks@[k]),
            names_view(emptied@) == names_view(old(emptied)@) + emptied_among(
                paras(old(blocks)@.take(i as int)),
            ),
        decreases n - i,
    {
        let ghost prior = blocks@;
        let ghost names = names_view(emptied@);
        proof {
            assert(decreases_to!(old(blocks)@ => old(blocks)@[i as int]));
        }
        strip_block(&mut blocks[i], emptied);
        proof {
            let all = old(blocks)@;
            assert(all.take(i + 1).drop_last() =~= all.take(i as int));
            assert(paras(all.take(i + 1)) == paras(all.take(i as int)) + crate::walk::block_paras(
                all[i as int],
            ));
            lemma_emptied_concat(
                paras(all.take(i as int)),
                crate::walk::block_paras(all[i as int]),
            );
            assert(names_view(emptied@) =~= names_view(old(emptied)@) + emptied_among(
                paras(all.take(i + 1)),
            ));
            assert forall|k: int| 0 <= k < i + 1 implies block_stripped(
                all[k],
                #[trigger] blocks@[k],
            ) by {
                if k < i {
                    assert(blocks@[k] == prior[k]);
                }
            }
        }
        i = i + 1;
    }
    assert(old(blocks)@.take(n as int) =~= old(blocks)@);
}

proof fn lemma_emptied_concat(a: Seq<Para>, b: Seq<Para>)
    ensures
        emptied_among(a + b) == emptied_among(a) + emptied_among(b),
    decreases b.len(),
{
    if b.len() == 0 {
        assert(a + b =~= a);
        assert(emptied_among(a) + emptied_among(b) =~= emptied_among(a));
    } else {
        assert((a + b).drop_last() =~= a + b.drop_last());
        lemma_emptied_concat(a, b.drop_last());
        assert(emptied_among(a + b) =~= emptied_among(a) + emptied_among(b));
    }
}

fn strip_rows(rows: &mut Vec<Row>, emptied: &mut Vec<String>)
    ensures
        rows_stripped(old(rows)@, final(rows)@),
        names_view(final(emptied)@) == names_view(old(emptied)@) + emptied_among(
            crate::walk::rows_paras(old(rows)@),
        ),
    decreases old(rows)@,
{
    let mut i: usize = 0;
    let n: usize = rows.len();
    assert(names_view(emptied@) =~= names_view(old(emptied)@) + emptied_among(
        crate::walk::rows_paras(old(rows)@.take(0)),
    ));
    while i < n
        invariant
            i <= n,
            n == rows@.len(),
            n == old(rows)@.len(),
            forall|k: int| i <= k < n ==> rows@[k] == old(rows)@[k],
            rows_stripped(old(rows)@.take(i as int), rows@.take(i as int)),
            names_view(emptied@) == names_view(old(emptied)@) + emptied_among(
                crate::walk::rows_paras(old(rows)@.take(i as int)),
            ),
        decreases n - i,
    {
        let ghost prior = rows@;
        proof {
            assert(decreases_to!(old(rows)@ => old(rows)@[i as int]));
        }
        strip_cells(&mut rows[i].cells, emptied);
        proof {
            let all = old(rows)@;
            assert(all.take(i + 1).drop_last() =~= all.take(i as int));
            lemma_emptied_concat(
                crate::walk::rows_paras(all.take(i as int)),
                crate::walk::cells_paras(all[i as int].cells@),
            );
            assert(names_view(emptied@) =~= names_view(old(emptied)@) + emptied_among(
                crate::walk::rows_paras(all.take(i + 1)),
            ));
            assert forall|k: int|
                #![trigger all.take(i + 1)[k]]
                #![trigger rows@.take(i + 1)[k]]
                0 <= k < i + 1 implies {
                &&& rows@.take(i + 1)[k].header == all.take(i + 1)[k].header
                &&& rows@.take(i + 1)[k].cant_split == all.take(i + 1)[k].cant_split
                &&& rows@.take(i + 1)[k].height == all.take(i + 1)[k].height
                &&& cells_stripped(all.take(i + 1)[k].cells@, rows@.take(i + 1)[k].cells@)
            } by {
                if k < i {
                    assert(prior.take(i as int)[k] == rows@[k]);
                    assert(all.take(i as int)[k] == all[k]);
                }
            }
        }
        i = i + 1;
    }
    assert(old(rows)@.take(n as int) =~= old(rows)@);
    assert(rows@.take(n as int) =~= rows@);
}

fn strip_cells(cells: &mut Vec<Cell>, emptied: &mut Vec<String>)
    ensures
        cells_stripped(old(cells)@, final(cells)@),
        names_view(final(emptied)@) == names_view(old(emptied)@) + emptied_among(
            crate::walk::cells_paras(old(cells)@),
        ),
    decreases old(cells)@,
{
    let mut i: usize = 0;
    let n: usize = cells.len();
    assert(names_view(emptied@) =~= names_view(old(emptied)@) + emptied_among(
        crate::walk::cells_paras(old(cells)@.take(0)),
    ));
    while i < n
        invariant
            i <= n,
            n == cells@.len(),
            n == old(cells)@.len(),
            forall|k: int| i <= k < n ==> cells@[k] == old(cells)@[k],
            cells_stripped(old(cells)@.take(i as int), cells@.take(i as int)),
            names_view(emptied@) == names_view(old(emptied)@) + emptied_among(
                crate::walk::cells_paras(old(cells)@.take(i as int)),
            ),
        decreases n - i,
    {
        let ghost prior = cells@;
        proof {
            assert(decreases_to!(old(cells)@ => old(cells)@[i as int]));
        }
        strip_frozen_numbers(&mut cells[i].blocks, emptied);
        proof {
            let all = old(cells)@;
            assert(all.take(i + 1).drop_last() =~= all.take(i as int));
            lemma_emptied_concat(
                crate::walk::cells_paras(all.take(i as int)),
                paras(all[i as int].blocks@),
            );
            assert(names_view(emptied@) =~= names_view(old(emptied)@) + emptied_among(
                crate::walk::cells_paras(all.take(i + 1)),
            ));
            assert forall|k: int|
                #![trigger all.take(i + 1)[k]]
                #![trigger cells@.take(i + 1)[k]]
                0 <= k < i + 1 implies {
                &&& cells@.take(i + 1)[k] == (Cell {
                    blocks: cells@.take(i + 1)[k].blocks,
                    ..all.take(i + 1)[k]
                })
                &&& blocks_stripped(all.take(i + 1)[k].blocks@, cells@.take(i + 1)[k].blocks@)
            } by {
                if k < i {
                    assert(prior.take(i as int)[k] == cells@[k]);
                    assert(all.take(i as int)[k] == all[k]);
                }
            }
        }
        i = i + 1;
    }
    assert(old(cells)@.take(n as int) =~= old(cells)@);
    assert(cells@.take(n as int) =~= cells@);
}

/// The bookmark that a reference to a bookmark's text names.
pub open spec fn reference_target(instr: Seq<char>) -> Option<Seq<char>> {
    match cut_prefix(instr, " REF "@) {
        Some(rest) => cut_suffix(rest, " \\h "@),
        None => None,
    }
}

/// A field instruction with a reference to the text of an emptied bookmark
/// turned into one to the number of the paragraph that the bookmark sits in.
pub open spec fn retargeted(instr: Seq<char>, emptied: Seq<Seq<char>>) -> Seq<char> {
    match reference_target(instr) {
        Some(name) => if emptied.contains(name) {
            " REF "@ + name + " \\w \\h "@
        } else {
            instr
        },
        None => instr,
    }
}

/// Whether `new` is `old` with every field instruction retargeted, those in
/// cached results too.
pub open spec fn run_retargeted(old: Run, new: Run, emptied: Seq<Seq<char>>) -> bool
    decreases old,
{
    match old {
        Run::Field(f) => {
            &&& new is Field
            &&& new->Field_0.instr@ == retargeted(f.instr@, emptied)
            &&& new->Field_0.mode == f.mode
            &&& new->Field_0.display == f.display
            &&& new->Field_0.cache_status == f.cache_status
            &&& runs_retargeted(f.result@, new->Field_0.result@, emptied)
        },
        _ => new == old,
    }
}

/// Whether runs are retargeted one by one.
pub open spec fn runs_retargeted(old: Seq<Run>, new: Seq<Run>, emptied: Seq<Seq<char>>) -> bool
    decreases old,
{
    old.len() == new.len() && forall|i: int|
        #![trigger old[i]]
        #![trigger new[i]]
        0 <= i < old.len() ==> run_retargeted(old[i], new[i], emptied)
}

/// Whether a paragraph child is retargeted.
pub open spec fn child_retargeted(
    old: ParaChild,
    new: ParaChild,
    emptied: Seq<Seq<char>>,
) -> bool {
    match old {
        ParaChild::Run(run) => new is Run && run_retargeted(run, new->Run_0, emptied),
        ParaChild::Hyperlink { rel, anchor, runs } => {
            &&& new is Hyperlink
            &&& new->rel == rel
            &&& new->anchor == anchor
            &&& runs_retargeted(runs@, new->runs@, emptied)
        },
        _ => new == old,
    }
}

/// Whether a paragraph is retargeted.
pub open spec fn para_retargeted(old: Para, new: Para, emptied: Seq<Seq<char>>) -> bool {
    &&& new.props == old.props
    &&& old.content@.len() == new.content@.len()
    &&& forall|i: int|
        #![trigger old.content@[i]]
        #![trigger new.content@[i]]
        0 <= i < old.content@.len() ==> child_retargeted(
            old.content@[i],
            new.content@[i],
            emptied,
        )
}

/// Whether paragraphs are retargeted one by one.
pub open spec fn paras_retargeted(
    old: Seq<Para>,
    new: Seq<Para>,
    emptied: Seq<Seq<char>>,
) -> bool {
    old.len() == new.len() && forall|i: int|
        #![trigger old[i]]
        #![trigger new[i]]
        0 <= i < old.len() ==> para_retargeted(old[i], new[i], emptied)
}

/// Whether a block is retargeted.
pub open spec fn block_retargeted(old: Block, new: Block, emptied: Seq<Seq<char>>) -> bool
    decreases old,
{
    match old {
        Block::Para(p) => new is Para && para_retargeted(p, new->Para_0, emptied),
        Block::Toc(t) => {
            &&& new is Toc
            &&& new->Toc_0 == (crate::dom::Toc {
                entries: new->Toc_0.entries,
                fallback: new->Toc_0.fallback,
                ..t
            })
            &&& paras_retargeted(t.entries@, new->Toc_0.entries@, emptied)
            &&& runs_retargeted(t.fallback@, new->Toc_0.fallback@, emptied)
        },
        Block::Table(t) => {
            &&& new is Table
            &&& new->Table_0.props == t.props
            &&& new->Table_0.grid == t.grid
            &&& rows_retargeted(t.rows@, new->Table_0.rows@, emptied)
        },
        _ => new == old,
    }
}

/// Whether blocks are retargeted one by one.
pub open spec fn blocks_retargeted(
    old: Seq<Block>,
    new: Seq<Block>,
    emptied: Seq<Seq<char>>,
) -> bool
    decreases old,
{
    old.len() == new.len() && forall|i: int|
        #![trigger old[i]]
        #![trigger new[i]]
        0 <= i < old.len() ==> block_retargeted(old[i], new[i], emptied)
}

/// Whether rows are retargeted one by one.
pub open spec fn rows_retargeted(old: Seq<Row>, new: Seq<Row>, emptied: Seq<Seq<char>>) -> bool
    decreases old,
{
    old.len() == new.len() && forall|i: int|
        #![trigger old[i]]
        #![trigger new[i]]
        0 <= i < old.len() ==> {
            &&& new[i].header == old[i].header
            &&& new[i].cant_split == old[i].cant_split
            &&& new[i].height == old[i].height
            &&& cells_retargeted(old[i].cells@, new[i].cells@, emptied)
        }
}

/// Whether cells are retargeted one by one.
pub open spec fn cells_retargeted(
    old: Seq<Cell>,
    new: Seq<Cell>,
    emptied: Seq<Seq<char>>,
) -> bool
    decreases old,
{
    old.len() == new.len() && forall|i: int|
        #![trigger old[i]]
        #![trigger new[i]]
        0 <= i < old.len() ==> {
            &&& new[i] == (Cell { blocks: new[i].blocks, ..old[i] })
            &&& blocks_retargeted(old[i].blocks@, new[i].blocks@, emptied)
        }
}

fn is_emptied(name: &str, emptied: &Vec<String>) -> (r: bool)
    ensures
        r == names_view(emptied@).contains(name@),
{
    let mut i: usize = 0;
    while i < emptied.len()
        invariant
            i <= emptied.len(),
            forall|k: int| 0 <= k < i ==> (#[trigger] names_view(emptied@)[k]) != name@,
        decreases emptied.len() - i,
    {
        assert(names_view(emptied@)[i as int] == emptied@[i as int]@);
        if str_eq(emptied[i].as_str(), name) {
            return true;
        }
        i = i + 1;
    }
    false
}

fn retarget_instr(instr: &mut String, emptied: &Vec<String>)
    ensures
        final(instr)@ == retargeted(old(instr)@, names_view(emptied@)),
{
    if let Some(rest) = strip_prefix(instr.as_str(), " REF ") {
        if let Some(name) = strip_suffix(rest.as_str(), " \\h ") {
            if is_emptied(name.as_str(), emptied) {
                let head: String = concat2(" REF ", name.as_str());
                *instr = concat2(head.as_str(), " \\w \\h ");
            }
        }
    }
}

fn retarget_run(run: &mut Run, emptied: &Vec<String>)
    ensures
        run_retargeted(*old(run), *final(run), names_view(emptied@)),
    decreases *old(run),
{
    match run {
        Run::Field(field) => {
            retarget_instr(&mut field.instr, emptied);
            retarget_runs(&mut field.result, emptied);
        }
        _ => {}
    }
}

fn retarget_runs(runs: &mut Vec<Run>, emptied: &Vec<String>)
    ensures
        runs_retargeted(old(runs)@, final(runs)@, names_view(emptied@)),
    decreases old(runs)@,
{
    let n: usize = runs.len();
    let mut i: usize = 0;
    while i < n
        invariant
            i <= n,
            n == runs@.len(),
            n == old(runs)@.len(),
            forall|k: int| i <= k < n ==> runs@[k] == old(runs)@[k],
            forall|k: int|
                0 <= k < i ==> run_retargeted(
                    old(runs)@[k],
                    #[trigger] runs@[k],
                    names_view(emptied@),
                ),
        decreases n - i,
    {
        proof {
            assert(decreases_to!(old(runs)@ => old(runs)@[i as int]));
        }
        retarget_run(&mut runs[i], emptied);
        i = i + 1;
    }
}

fn retarget_child(child: &mut ParaChild, emptied: &Vec<String>)
    ensures
        child_retargeted(*old(child), *final(child), names_view(emptied@)),
{
    match child {
        ParaChild::Run(run) => {
            retarget_run(run, emptied);
        }
        ParaChild::Hyperlink { runs, .. } => {
            retarget_runs(runs, emptied);
        }
        _ => {}
    }
}

fn retarget_para(para: &mut Para, emptied: &Vec<String>)
    ensures
        para_retargeted(*old(para), *final(para), names_view(emptied@)),
{
    let n: usize = para.content.len();
    let mut i: usize = 0;
    while i < n
        invariant
            i <= n,
            para.props == old(para).props,
            n == para.content@.len(),
            n == old(para).content@.len(),
            forall|k: int| i <= k < n ==> para.content@[k] == old(para).content@[k],
            forall|k: int|
                0 <= k < i ==> child_retargeted(
                    old(para).content@[k],
                    #[trigger] para.content@[k],
                    names_view(emptied@),
                ),
        decreases n - i,
    {
        retarget_child(&mut para.content[i], emptied);
        i = i + 1;
    }
}

fn retarget_paras(ps: &mut Vec<Para>, emptied: &Vec<String>)
    ensures
        paras_retargeted(old(ps)@, final(ps)@, names_view(emptied@)),
{
    let n: usize = ps.len();
    let mut i: usize = 0;
    while i < n
        invariant
            i <= n,
            n == ps@.len(),
            n == old(ps)@.len(),
            forall|k: int| i <= k < n ==> ps@[k] == old(ps)@[k],
            forall|k: int|
                0 <= k < i ==> para_retargeted(
                    old(ps)@[k],
                    #[trigger] ps@[k],
                    names_view(emptied@),
                ),
        decreases n - i,
    {
        retarget_para(&mut ps[i], emptied);
        i = i + 1;
    }
}

fn retarget_block(block: &mut Block, emptied: &Vec<String>)
    ensures
        block_retargeted(*old(block), *final(block), names_view(emptied@)),
    decreases *old(block),
{
    match block {
        Block::Para(para) => {
            retarget_para(para, emptied);
        }
        Block::Toc(toc) => {
            retarget_paras(&mut toc.entries, emptied);
            retarget_runs(&mut toc.fallback, emptied);
        }
        Block::Table(tbl) => {
            retarget_rows(&mut tbl.rows, emptied);
        }
        _ => {}
    }
}

/// Points references to the text of emptied bookmarks at the number of the
/// paragraph that the bookmark sits in.
pub fn retarget_number_references(blocks: &mut Vec<Block>, emptied: &Vec<String>)
    ensures
        blocks_retargeted(old(blocks)@, final(blocks)@, names_view(emptied@)),
    decreases old(blocks)@,
{
    let n: usize = blocks.len();
    let mut i: usize = 0;
    while i < n
        invariant
            i <= n,
            n == blocks@.len(),
            n == old(blocks)@.len(),
            forall|k: int| i <= k < n ==> blocks@[k] == old(blocks)@[k],
            forall|k: int|
                0 <= k < i ==> block_retargeted(
                    old(blocks)@[k],
                    #[trigger] blocks@[k],
                    names_view(emptied@),
                ),
        decreases n - i,
    {
        proof {
            assert(decreases_to!(old(blocks)@ => old(blocks)@[i as int]));
        }
        retarget_block(&mut blocks[i], emptied);
        i = i + 1;
    }
}

fn retarget_rows(rows: &mut Vec<Row>, emptied: &Vec<String>)
    ensures
        rows_retargeted(old(rows)@, final(rows)@, names_view(emptied@)),
    decreases old(rows)@,
{
    let n: usize = rows.len();
    let mut i: usize = 0;
    while i < n
        invariant
            i <= n,
            n == rows@.len(),
            n == old(rows)@.len(),
            forall|k: int| i <= k < n ==> rows@[k] == old(rows)@[k],
            forall|k: int|
                0 <= k < i ==> {
                    &&& (#[trigger] rows@[k]).header == old(rows)@[k].header
                    &&& rows@[k].cant_split == old(rows)@[k].cant_split
                    &&& rows@[k].height == old(rows)@[k].height
                    &&& cells_retargeted(
                        old(rows)@[k].cells@,
                        rows@[k].cells@,
                        names_view(emptied@),
                    )
                },
        decreases n - i,
    {
        proof {
            assert(decreases_to!(old(rows)@ => old(rows)@[i as int]));
        }
        retarget_cells(&mut rows[i].cells, emptied);
        i = i + 1;
    }
}

fn retarget_cells(cells: &mut Vec<Cell>, emptied: &Vec<String>)
    ensures
        cells_retargeted(old(cells)@, final(cells)@, names_view(emptied@)),
    decreases old(cells)@,
{
    let n: usize = cells.len();
    let mut i: usize = 0;
    while i < n
        invariant
            i <= n,
            n == cells@.len(),
            n == old(cells)@.len(),
            forall|k: int| i <= k < n ==> cells@[k] == old(cells)@[k],
            forall|k: int|
                0 <= k < i ==> {
                    &&& #[trigger] cells@[k] == (Cell {
                        blocks: cells@[k].blocks,
                        ..old(cells)@[k]
                    })
                    &&& blocks_retargeted(
                        old(cells)@[k].blocks@,
                        cells@[k].blocks@,
                        names_view(emptied@),
                    )
                },
        decreases n - i,
    {
        proof {
            assert(decreases_to!(old(cells)@ => old(cells)@[i as int]));
        }
        retarget_number_references(&mut cells[i].blocks, emptied);
        i = i + 1;
    }
}

/// What a list level says.
pub open spec fn level_view(l: ListLevel) -> (
    NumFmt,
    Seq<char>,
    u64,
    i32,
    i32,
    Option<Seq<char>>,
    Option<Seq<char>>,
) {
    (
        l.num_fmt,
        l.lvl_text@,
        l.start,
        l.ind_left,
        l.ind_hanging,
        opt_str(l.bullet_font),
        opt_str(l.pstyle),
    )
}

/// What list levels say.
pub open spec fn levels_view(s: Seq<ListLevel>) -> Seq<
    (NumFmt, Seq<char>, u64, i32, i32, Option<Seq<char>>, Option<Seq<char>>),
> {
    s.map_values(|l: ListLevel| level_view(l))
}

fn copy_opt(s: &Option<String>) -> (r: Option<String>)
    ensures
        opt_str(r) == opt_str(*s),
{
    match s {
        Some(t) => Some(t.clone()),
        None => None,
    }
}

/// A copy of list levels.
pub fn copy_levels(levels: &Vec<ListLevel>) -> (r: Vec<ListLevel>)
    ensures
        levels_view(r@) == levels_view(levels@),
{
    let mut out: Vec<ListLevel> = Vec::new();
    let mut i: usize = 0;
    while i < levels.len()
        invariant
            i <= levels.len(),
            levels_view(out@) == levels_view(levels@.take(i as int)),
        decreases levels.len() - i,
    {
        let l: &ListLevel = &levels[i];
        let ghost prior = out@;
        out.push(
            ListLevel {
                num_fmt: l.num_fmt,
                lvl_text: l.lvl_text.clone(),
                start: l.start,
                ind_left: l.ind_left,
                ind_hanging: l.ind_hanging,
                bullet_font: copy_opt(&l.bullet_font),
                pstyle: copy_opt(&l.pstyle),
            },
        );
        i = i + 1;
        assert(levels_view(out@) =~= levels_view(prior).push(level_view(*l)));
        assert(levels_view(levels@.take(i as int)) =~= levels_view(levels@.take(i - 1)).push(
            level_view(*l),
        ));
    }
    assert(levels@.take(i as int) =~= levels@);
    out
}

/// The largest number identifier among the first `n` instances.
pub open spec fn max_num_id(nums: Seq<NumInstance>, n: int) -> u32
    decreases n,
{
    if n <= 0 {
        0
    } else {
        let before = max_num_id(nums, n - 1);
        if nums[n - 1].num_id > before {
            nums[n - 1].num_id
        } else {
            before
        }
    }
}

/// Whether `new` is `old` with the heading numbering added under the returned
/// number identifier.
pub open spec fn registered(
    old: NumberingTable,
    new: NumberingTable,
    levels: Seq<ListLevel>,
    num_id: u32,
) -> bool {
    let at = old.abstracts@.len() as int;
    &&& num_id == max_num_id(old.nums@, old.nums@.len() as int) + 1
    &&& new.abstracts@.len() == at + 1
    &&& new.abstracts@.take(at) == old.abstracts@
    &&& new.abstracts@[at].id == at
    &&& levels_view(new.abstracts@[at].levels@) == levels_view(levels)
    &&& new.abstracts@[at].multilevel == MultiLevelType::Multilevel
    &&& new.nums@ == old.nums@.push(
        NumInstance { num_id, abstract_id: at as u32, start_override: None },
    )
}

/// Adds the heading numbering and the single instance that the heading styles
/// join, and returns its number identifier.
pub fn register(numbering: &mut NumberingTable, levels: &Vec<ListLevel>) -> (num_id: u32)
    requires
        old(numbering).abstracts@.len() <= u32::MAX,
        max_num_id(old(numbering).nums@, old(numbering).nums@.len() as int) < u32::MAX,
    ensures
        registered(*old(numbering), *final(numbering), levels@, num_id),
{
    let abstract_id: u32 = numbering.abstracts.len() as u32;
    numbering.abstracts.push(
        AbstractNum {
            id: abstract_id,
            levels: copy_levels(levels),
            multilevel: MultiLevelType::Multilevel,
        },
    );
    assert(numbering.abstracts@.take(abstract_id as int) =~= old(numbering).abstracts@);
    let mut max: u32 = 0;
    let mut i: usize = 0;
    while i < numbering.nums.len()
        invariant
            i <= numbering.nums.len(),
            max == max_num_id(numbering.nums@, i as int),
        decreases numbering.nums.len() - i,
    {
        let id: u32 = numbering.nums[i].num_id;
        if id > max {
            max = id;
        }
        i = i + 1;
    }
    let num_id: u32 = max + 1;
    numbering.nums.push(NumInstance { num_id, abstract_id, start_override: None });
    num_id
}

/// What became of the document's heading numbers.
#[derive(Debug, Copy, Clone, PartialEq, Eq, Structural)]
pub enum Outcome {
    /// No heading carries a number.
    Unnumbered,
    /// The numbers stay frozen text.
    Frozen(DecisionReason),
    /// The headings are numbered by the instance with this identifier.
    Live(u32),
}

/// Whether no heading carries a number.
pub open spec fn all_unnumbered(headings: Seq<(u8, Option<Seq<char>>)>) -> bool {
    forall|i: int| 0 <= i < headings.len() ==> (#[trigger] headings[i]).1 is None
}

/// Whether the heading styles join the numbering instance.
pub open spec fn styles_joined(
    old: Seq<HeadingStyle>,
    new: Seq<HeadingStyle>,
    num_id: u32,
) -> bool {
    old.len() == new.len() && forall|i: int|
        #![trigger old[i]]
        #![trigger new[i]]
        0 <= i < old.len() ==> new[i] == (if old[i].level <= MAX_LEVELS {
            HeadingStyle { num_id: Some(num_id), ..old[i] }
        } else {
            old[i]
        })
}

/// Whether notes are retargeted one by one.
pub open spec fn notes_retargeted(
    old: Seq<Footnote>,
    new: Seq<Footnote>,
    emptied: Seq<Seq<char>>,
) -> bool {
    old.len() == new.len() && forall|i: int|
        #![trigger old[i]]
        #![trigger new[i]]
        0 <= i < old.len() ==> new[i].id == old[i].id && blocks_retargeted(
            old[i].blocks@,
            new[i].blocks@,
            emptied,
        )
}

/// Whether header or footer parts are retargeted one by one.
pub open spec fn hdrftrs_retargeted(
    old: Seq<HdrFtrPart>,
    new: Seq<HdrFtrPart>,
    emptied: Seq<Seq<char>>,
) -> bool {
    old.len() == new.len() && forall|i: int|
        #![trigger old[i]]
        #![trigger new[i]]
        0 <= i < old.len() ==> {
            &&& new[i] == (HdrFtrPart { blocks: new[i].blocks, ..old[i] })
            &&& blocks_retargeted(old[i].blocks@, new[i].blocks@, emptied)
        }
}

/// Whether `new` is `old` with the heading numbers gone live: the body's numbers
/// are stripped, and then every reference to an emptied bookmark is retargeted,
/// in all parts.
pub open spec fn parts_live(old: Parts, new: Parts) -> bool {
    let emptied = emptied_among(paras(old.body@));
    &&& exists|mid: Seq<Block>|
        #![trigger blocks_stripped(old.body@, mid)]
        blocks_stripped(old.body@, mid) && blocks_retargeted(mid, new.body@, emptied)
    &&& notes_retargeted(old.footnotes@, new.footnotes@, emptied)
    &&& hdrftrs_retargeted(old.headers@, new.headers@, emptied)
    &&& hdrftrs_retargeted(old.footers@, new.footers@, emptied)
}

fn retarget_notes(notes: &mut Vec<Footnote>, emptied: &Vec<String>)
    ensures
        notes_retargeted(old(notes)@, final(notes)@, names_view(emptied@)),
{
    let n: usize = notes.len();
    let mut i: usize = 0;
    while i < n
        invariant
            i <= n,
            n == notes@.len(),
            n == old(notes)@.len(),
            forall|k: int| i <= k < n ==> notes@[k] == old(notes)@[k],
            forall|k: int|
                0 <= k < i ==> (#[trigger] notes@[k]).id == old(notes)@[k].id && blocks_retargeted(
                    old(notes)@[k].blocks@,
                    notes@[k].blocks@,
                    names_view(emptied@),
                ),
        decreases n - i,
    {
        retarget_number_references(&mut notes[i].blocks, emptied);
        i = i + 1;
    }
}

fn retarget_hdrftrs(parts: &mut Vec<HdrFtrPart>, emptied: &Vec<String>)
    ensures
        hdrftrs_retargeted(old(parts)@, final(parts)@, names_view(emptied@)),
{
    let n: usize = parts.len();
    let mut i: usize = 0;
    while i < n
        invariant
            i <= n,
            n == parts@.len(),
            n == old(parts)@.len(),
            forall|k: int| i <= k < n ==> parts@[k] == old(parts)@[k],
            forall|k: int|
                0 <= k < i ==> {
                    &&& #[trigger] parts@[k] == (HdrFtrPart {
                        blocks: parts@[k].blocks,
                        ..old(parts)@[k]
                    })
                    &&& blocks_retargeted(
                        old(parts)@[k].blocks@,
                        parts@[k].blocks@,
                        names_view(emptied@),
                    )
                },
        decreases n - i,
    {
        retarget_number_references(&mut parts[i].blocks, emptied);
        i = i + 1;
    }
}

fn join_styles(styles: &mut Vec<HeadingStyle>, num_id: u32)
    ensures
        styles_joined(old(styles)@, final(styles)@, num_id),
{
    let n: usize = styles.len();
    let mut i: usize = 0;
    while i < n
        invariant
            i <= n,
            n == styles@.len(),
            n == old(styles)@.len(),
            forall|k: int| i <= k < n ==> styles@[k] == old(styles)@[k],
            forall|k: int|
                0 <= k < i ==> #[trigger] styles@[k] == (if old(styles)@[k].level <= MAX_LEVELS {
                    HeadingStyle { num_id: Some(num_id), ..old(styles)@[k] }
                } else {
                    old(styles)@[k]
                }),
        decreases n - i,
    {
        if styles[i].level as usize <= MAX_LEVELS {
            styles[i].num_id = Some(num_id);
        }
        i = i + 1;
    }
}

fn none_numbered(headings: &Vec<HeadingNumber>) -> (r: bool)
    ensures
        r == all_unnumbered(numbers_view(headings@)),
{
    let mut i: usize = 0;
    while i < headings.len()
        invariant
            i <= headings.len(),
            forall|k: int| 0 <= k < i ==> (#[trigger] numbers_view(headings@)[k]).1 is None,
        decreases headings.len() - i,
    {
        if headings[i].number.is_some() {
            assert(numbers_view(headings@)[i as int].1 is Some);
            return false;
        }
        i = i + 1;
    }
    true
}

/// Rewrites the document's frozen heading numbers into live numbering when that
/// reproduces every number exactly; otherwise leaves everything as it is and
/// says why.
pub fn apply(
    parts: &mut Parts,
    levels: Option<&Vec<ListLevel>>,
    numbering: &mut NumberingTable,
    heading_styles: &mut Vec<HeadingStyle>,
) -> (outcome: Outcome)
    requires
        old(numbering).abstracts@.len() <= u32::MAX,
        max_num_id(old(numbering).nums@, old(numbering).nums@.len() as int) < u32::MAX,
    ensures
        outcome == Outcome::Unnumbered <==> all_unnumbered(
            headings_among(paras(old(parts).body@)),
        ),
        outcome is Live <==> !all_unnumbered(headings_among(paras(old(parts).body@)))
            && can_go_live(levels, *old(parts)),
        outcome matches Outcome::Frozen(reason) ==> reason
            == DecisionReason::TypstOwnedHeadingNumber,
        !(outcome is Live) ==> *final(parts) == *old(parts) && *final(numbering) == *old(numbering)
            && *final(heading_styles) == *old(heading_styles),
        outcome matches Outcome::Live(num_id) ==> {
            &&& parts_live(*old(parts), *final(parts))
            &&& registered(*old(numbering), *final(numbering), levels.unwrap()@, num_id)
            &&& styles_joined(old(heading_styles)@, final(heading_styles)@, num_id)
        },
{
    let headings: Vec<HeadingNumber> = collect_headings(&parts.body);
    if none_numbered(&headings) {
        return Outcome::Unnumbered;
    }
    match plan(&headings, levels, parts) {
        Err(reason) => Outcome::Frozen(reason),
        Ok(own) => {
            let num_id: u32 = register(numbering, &own);
            join_styles(heading_styles, num_id);
            let mut emptied: Vec<String> = Vec::new();
            strip_frozen_numbers(&mut parts.body, &mut emptied);
            assert(names_view(emptied@) =~= emptied_among(paras(old(parts).body@)));
            let ghost mid = parts.body@;
            retarget_number_references(&mut parts.body, &emptied);
            retarget_notes(&mut parts.footnotes, &emptied);
            retarget_hdrftrs(&mut parts.headers, &emptied);
            retarget_hdrftrs(&mut parts.footers, &emptied);
            assert(blocks_stripped(old(parts).body@, mid));
            Outcome::Live(num_id)
        },
    }
}

/// Alphabetic numbering repeats rather than carries: a full turn through the
/// alphabet later, the same letter stands once more.
pub proof fn letters_repeat(value: nat, base: char)
    requires
        value >= 1,
        letters_of(value, base) is Some,
        letters_of(value + 26, base) is Some,
    ensures
        letters_of(value + 26, base).unwrap() == letters_of(value, base).unwrap().push(
            letters_of(value, base).unwrap()[0],
        ),
{
    let a = letters_of(value, base).unwrap();
    let b = letters_of(value + 26, base).unwrap();
    assert((value + 26 - 1) % 26 == (value - 1) % 26);
    assert((value + 26 - 1) / 26 == (value - 1) / 26 + 1);
    assert(b =~= a.push(a[0]));
}

} // verus!
