//! Which font renders which part of a text.

use vstd::prelude::*;

use crate::text::{push_char, str_eq, to_chars};

verus! {

/// A font family as far as one text is concerned.
#[derive(Debug)]
pub struct Family {
    pub name: String,
    /// Whether a font of the family is there.
    pub available: bool,
    /// For each character of the text, whether that font has a glyph for it.
    pub has_glyph: Vec<bool>,
    /// For each character of the text, whether the family may be used for it.
    pub admits: Vec<bool>,
}

/// What the search beyond the listed families finds.
#[derive(Debug)]
pub struct Fallback {
    /// Whether that search is allowed.
    pub enabled: bool,
    /// A font for the text as a whole.
    pub whole: Option<Family>,
    /// A family for each character of the text.
    pub single: Vec<Option<String>>,
}

/// A stretch of text and the family that renders it.
#[derive(Debug)]
pub struct FontSpan {
    pub font: String,
    pub text: String,
}

/// A stretch of text and its family.
pub struct SpanLook {
    pub font: Seq<char>,
    pub text: Seq<char>,
}

/// What stretches of text say.
pub open spec fn spans_view(spans: Seq<FontSpan>) -> Seq<SpanLook> {
    spans.map_values(|s: FontSpan| SpanLook { font: s.font@, text: s.text@ })
}

/// Whether the facts cover every one of `n` characters.
pub open spec fn covers_text(families: Seq<Family>, fallback: Fallback, n: int) -> bool {
    &&& forall|i: int|
        0 <= i < families.len() ==> (#[trigger] families[i]).has_glyph@.len() == n
            && families[i].admits@.len() == n
    &&& fallback.single@.len() == n
    &&& match fallback.whole {
        Some(f) => f.has_glyph@.len() == n && f.admits@.len() == n,
        None => true,
    }
}

/// The index of the first available family from `i` on, or the length.
pub open spec fn first_available(families: Seq<Family>, i: int) -> int
    decreases families.len() - i,
{
    if 0 <= i < families.len() && !families[i].available {
        first_available(families, i + 1)
    } else {
        i
    }
}

/// The family that leads: the first available one, else what the search finds
/// for the whole text.
pub open spec fn leading(families: Seq<Family>, fallback: Fallback) -> Option<Family> {
    let at = first_available(families, 0);
    if at < families.len() {
        Some(families[at])
    } else if fallback.enabled {
        fallback.whole
    } else {
        None
    }
}

/// Whether a family renders the character at `k`.
pub open spec fn renders(family: Family, k: int) -> bool {
    family.has_glyph@[k] && family.admits@[k]
}

/// The index of the first available family from `i` on that renders the
/// character at `k`, or the length.
pub open spec fn renderer(families: Seq<Family>, k: int, i: int) -> int
    decreases families.len() - i,
{
    if 0 <= i < families.len() && !(families[i].available && renders(families[i], k)) {
        renderer(families, k, i + 1)
    } else {
        i
    }
}

/// The family of the character at `k`: the first that renders it, else what the
/// search finds, else the leading one.
pub open spec fn font_at(
    families: Seq<Family>,
    fallback: Fallback,
    lead: Seq<char>,
    k: int,
) -> Seq<char> {
    let at = renderer(families, k, 0);
    if at < families.len() {
        families[at].name@
    } else if fallback.enabled && fallback.single@[k] is Some {
        fallback.single@[k]->0@
    } else {
        lead
    }
}

/// The stretches of the first `n` characters: neighbors with one family stand
/// together.
pub open spec fn stretches(
    text: Seq<char>,
    families: Seq<Family>,
    fallback: Fallback,
    lead: Seq<char>,
    n: int,
) -> Seq<SpanLook>
    decreases n,
{
    if n <= 0 {
        seq![]
    } else {
        let before = stretches(text, families, fallback, lead, n - 1);
        let font = font_at(families, fallback, lead, n - 1);
        if before.len() > 0 && before.last().font == font {
            before.update(
                before.len() - 1,
                SpanLook { font, text: before.last().text.push(text[n - 1]) },
            )
        } else {
            before.push(SpanLook { font, text: seq![text[n - 1]] })
        }
    }
}

/// The fonts of a text.
pub open spec fn font_spans(
    text: Seq<char>,
    families: Seq<Family>,
    fallback: Fallback,
) -> Seq<SpanLook> {
    if families.len() == 0 {
        seq![SpanLook { font: seq![], text }]
    } else {
        match leading(families, fallback) {
            None => seq![],
            Some(lead) => if forall|k: int| 0 <= k < text.len() ==> #[trigger] renders(lead, k) {
                seq![SpanLook { font: lead.name@, text }]
            } else {
                stretches(text, families, fallback, lead.name@, text.len() as int)
            },
        }
    }
}

fn find_available(families: &Vec<Family>) -> (r: usize)
    ensures
        r == first_available(families@, 0),
        r <= families@.len(),
{
    let mut i: usize = 0;
    while i < families.len()
        invariant
            i <= families@.len(),
            first_available(families@, 0) == first_available(families@, i as int),
        decreases families@.len() - i,
    {
        if families[i].available {
            return i;
        }
        i = i + 1;
    }
    i
}

fn find_renderer(families: &Vec<Family>, k: usize) -> (r: usize)
    requires
        forall|i: int|
            0 <= i < families@.len() ==> (#[trigger] families@[i]).has_glyph@.len() > k
                && families@[i].admits@.len() > k,
    ensures
        r == renderer(families@, k as int, 0),
        r <= families@.len(),
{
    let mut i: usize = 0;
    while i < families.len()
        invariant
            i <= families@.len(),
            renderer(families@, k as int, 0) == renderer(families@, k as int, i as int),
            forall|i: int|
                0 <= i < families@.len() ==> (#[trigger] families@[i]).has_glyph@.len() > k
                    && families@[i].admits@.len() > k,
        decreases families@.len() - i,
    {
        let f: &Family = &families[i];
        if f.available && f.has_glyph[k] && f.admits[k] {
            return i;
        }
        i = i + 1;
    }
    i
}

fn renders_all(family: &Family, n: usize) -> (r: bool)
    requires
        family.has_glyph@.len() == n,
        family.admits@.len() == n,
    ensures
        r == (forall|k: int| 0 <= k < n ==> #[trigger] renders(*family, k)),
{
    let mut k: usize = 0;
    while k < n
        invariant
            k <= n,
            family.has_glyph@.len() == n,
            family.admits@.len() == n,
            forall|j: int| 0 <= j < k ==> #[trigger] renders(*family, j),
        decreases n - k,
    {
        if !(family.has_glyph[k] && family.admits[k]) {
            assert(!renders(*family, k as int));
            return false;
        }
        k = k + 1;
    }
    true
}

fn font_name_at(families: &Vec<Family>, fallback: &Fallback, lead: &str, k: usize) -> (r: String)
    requires
        exists|n: int| k < n && covers_text(families@, *fallback, n),
    ensures
        r@ == font_at(families@, *fallback, lead@, k as int),
{
    let at: usize = find_renderer(families, k);
    if at < families.len() {
        return families[at].name.clone();
    }
    if fallback.enabled {
        if let Some(name) = &fallback.single[k] {
            return name.clone();
        }
    }
    lead.to_owned()
}

fn push_char_span(spans: &mut Vec<FontSpan>, font: String, c: char)
    ensures
        ({
            let before = spans_view(old(spans)@);
            spans_view(final(spans)@) == (if before.len() > 0 && before.last().font == font@ {
                before.update(
                    before.len() - 1,
                    SpanLook { font: font@, text: before.last().text.push(c) },
                )
            } else {
                before.push(SpanLook { font: font@, text: seq![c] })
            })
        }),
{
    let ghost before = spans_view(spans@);
    let n: usize = spans.len();
    if n > 0 && str_eq(spans[n - 1].font.as_str(), font.as_str()) {
        assert(before.last().font == font@);
        push_char(&mut spans[n - 1].text, c);
        assert(spans_view(spans@) =~= before.update(
            before.len() - 1,
            SpanLook { font: font@, text: before.last().text.push(c) },
        ));
    } else {
        let mut text: String = String::new();
        push_char(&mut text, c);
        assert(text@ =~= seq![c]);
        spans.push(FontSpan { font, text });
        assert(spans_view(spans@) =~= before.push(SpanLook { font: font@, text: seq![c] }));
        assert(n > 0 ==> before.last().font == old(spans)@[n - 1].font@);
    }
}

/// Splits a text into stretches that one font family renders each. Listed
/// families come first, in their order; the search beyond them follows where it
/// is allowed; what nothing renders stays with the leading family. Without any
/// usable family no text is left.
pub fn split_by_font_coverage(text: &str, families: &Vec<Family>, fallback: &Fallback) -> (r: Vec<
    FontSpan,
>)
    requires
        covers_text(families@, *fallback, text@.len() as int),
    ensures
        spans_view(r@) == font_spans(text@, families@, *fallback),
{
    let mut spans: Vec<FontSpan> = Vec::new();
    if families.len() == 0 {
        spans.push(FontSpan { font: String::new(), text: text.to_owned() });
        assert(spans_view(spans@) =~= font_spans(text@, families@, *fallback));
        return spans;
    }
    let at: usize = find_available(families);
    let lead: &Family = if at < families.len() {
        &families[at]
    } else {
        if !fallback.enabled {
            assert(spans_view(spans@) =~= font_spans(text@, families@, *fallback));
            return spans;
        }
        match &fallback.whole {
            Some(f) => f,
            None => {
                assert(spans_view(spans@) =~= font_spans(text@, families@, *fallback));
                return spans;
            },
        }
    };
    assert(leading(families@, *fallback) == Some(*lead));
    let chars: Vec<char> = to_chars(text);
    if renders_all(lead, chars.len()) {
        spans.push(FontSpan { font: lead.name.clone(), text: text.to_owned() });
        assert(spans_view(spans@) =~= font_spans(text@, families@, *fallback));
        return spans;
    }
    let mut k: usize = 0;
    assert(spans_view(spans@) =~= stretches(text@, families@, *fallback, lead.name@, 0));
    while k < chars.len()
        invariant
            k <= chars@.len(),
            chars@ == text@,
            covers_text(families@, *fallback, text@.len() as int),
            spans_view(spans@) == stretches(text@, families@, *fallback, lead.name@, k as int),
        decreases chars@.len() - k,
    {
        let font: String = font_name_at(families, fallback, lead.name.as_str(), k);
        push_char_span(&mut spans, font, chars[k]);
        k = k + 1;
    }
    spans
}

/// The listed families of which no font is there, in their order.
pub open spec fn missing(families: Seq<Family>) -> Seq<Seq<char>>
    decreases families.len(),
{
    if families.len() == 0 {
        seq![]
    } else if families.last().available {
        missing(families.drop_last())
    } else {
        missing(families.drop_last()).push(families.last().name@)
    }
}

/// The names of the families of which no font is there.
pub fn unavailable_families(families: &Vec<Family>) -> (r: Vec<String>)
    ensures
        r@.map_values(|s: String| s@) == missing(families@),
{
    let mut out: Vec<String> = Vec::new();
    let mut i: usize = 0;
    assert(out@.map_values(|s: String| s@) =~= missing(families@.take(0)));
    while i < families.len()
        invariant
            i <= families@.len(),
            out@.map_values(|s: String| s@) == missing(families@.take(i as int)),
        decreases families@.len() - i,
    {
        assert(families@.take(i + 1).drop_last() =~= families@.take(i as int));
        if !families[i].available {
            let ghost before = out@.map_values(|s: String| s@);
            out.push(families[i].name.clone());
            assert(out@.map_values(|s: String| s@) =~= before.push(families@[i as int].name@));
        }
        i = i + 1;
    }
    assert(families@.take(i as int) =~= families@);
    out
}

/// The text of stretches.
pub open spec fn spans_text(spans: Seq<SpanLook>) -> Seq<char>
    decreases spans.len(),
{
    if spans.len() == 0 {
        seq![]
    } else {
        spans_text(spans.drop_last()) + spans.last().text
    }
}

/// Splitting a text by fonts loses no character and changes no order, unless no
/// family is usable at all; and neighbors never have one family.
pub proof fn splitting_keeps_the_text(text: Seq<char>, families: Seq<Family>, fallback: Fallback)
    ensures
        families.len() == 0 || leading(families, fallback) is Some ==> spans_text(
            font_spans(text, families, fallback),
        ) == text,
        forall|i: int|
            0 < i < font_spans(text, families, fallback).len() ==> (#[trigger] font_spans(
                text,
                families,
                fallback,
            )[i]).font != font_spans(text, families, fallback)[i - 1].font,
{
    let spans = font_spans(text, families, fallback);
    if families.len() == 0 {
        assert(spans.drop_last() =~= seq![]);
        assert(spans_text(seq![]) =~= seq![]);
        assert(spans_text(spans) =~= text);
    } else if let Some(lead) = leading(families, fallback) {
        if forall|k: int| 0 <= k < text.len() ==> #[trigger] renders(lead, k) {
            assert(spans.drop_last() =~= seq![]);
            assert(spans_text(seq![]) =~= seq![]);
            assert(spans_text(spans) =~= text);
        } else {
            lemma_stretches(text, families, fallback, lead.name@, text.len() as int);
            assert(text.take(text.len() as int) =~= text);
        }
    }
}

proof fn lemma_stretches(
    text: Seq<char>,
    families: Seq<Family>,
    fallback: Fallback,
    lead: Seq<char>,
    n: int,
)
    requires
        0 <= n <= text.len(),
    ensures
        spans_text(stretches(text, families, fallback, lead, n)) == text.take(n),
        forall|i: int|
            0 < i < stretches(text, families, fallback, lead, n).len() ==> (#[trigger] stretches(
                text,
                families,
                fallback,
                lead,
                n,
            )[i]).font != stretches(text, families, fallback, lead, n)[i - 1].font,
    decreases n,
{
    let spans = stretches(text, families, fallback, lead, n);
    if n == 0 {
        assert(spans_text(spans) =~= text.take(0));
    } else {
        lemma_stretches(text, families, fallback, lead, n - 1);
        let before = stretches(text, families, fallback, lead, n - 1);
        let font = font_at(families, fallback, lead, n - 1);
        if before.len() > 0 && before.last().font == font {
            assert(spans.drop_last() =~= before.drop_last());
            assert(spans.last().text == before.last().text.push(text[n - 1]));
        } else {
            assert(spans.drop_last() =~= before);
        }
        assert(text.take(n) =~= text.take(n - 1).push(text[n - 1]));
        if before.len() > 0 {
            assert(spans_text(before) == spans_text(before.drop_last()) + before.last().text);
        }
        assert(spans_text(spans) == spans_text(spans.drop_last()) + spans.last().text);
        assert(spans_text(spans) =~= text.take(n));
        assert forall|i: int| 0 < i < spans.len() implies (#[trigger] spans[i]).font != spans[i
            - 1].font by {
            if i < before.len() {
                assert(before[i].font != before[i - 1].font);
            }
        }
    }
}

} // verus!
