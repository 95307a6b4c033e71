//! What text and paragraph styles show in the formatting of runs and paragraphs.

use vstd::prelude::*;

use crate::ctx::format::{
    Deco, FixedAlignment, HighlightPaint, ParStyle, TextStyle, align_jc, decorated, frame_height,
    highlight_color, highlight_distance, highlight_name, is_nearest_highlight, is_par_formatting,
    lemma_nearest_unique, named_highlight, resolved, stroke_underline,
};
use crate::ctx::inline::{Wrapper, wrapped};
use crate::dom::{Jc, ParaProps, ReviewOrigin, VertAlign};
use crate::length::twips;
use crate::props::RunLook;

verus! {

// -- The face ----------------------------------------------------------------

/// Inside upright formatting, text is italic exactly when one and only one of the
/// font's slant and the emphasis is on: emphasis over upright text is italic, and
/// emphasis over slanted text is upright.
pub proof fn emphasis_toggles_the_slant(inherited: RunLook, style: TextStyle, raw: bool)
    ensures
        !inherited.italic && style.emph && !style.slanted ==> resolved(
            inherited,
            style,
            raw,
        ).italic,
        !inherited.italic && !style.emph && style.slanted ==> resolved(
            inherited,
            style,
            raw,
        ).italic,
        !inherited.italic && style.emph && style.slanted ==> !resolved(
            inherited,
            style,
            raw,
        ).italic,
        !inherited.italic && !style.emph && !style.slanted ==> !resolved(
            inherited,
            style,
            raw,
        ).italic,
        inherited.italic && style.emph ==> !resolved(inherited, style, raw).italic,
        inherited.italic && !style.emph ==> resolved(inherited, style, raw).italic,
        resolved(inherited, style, raw).emphasis <==> inherited.emphasis || style.emph,
{
    lemma_decorated(face_of(inherited, style, raw), style.decos@);
}

/// Turning emphasis on turns the slant of the same text over.
pub proof fn emphasis_changes_how_text_looks(
    inherited: RunLook,
    with: TextStyle,
    without: TextStyle,
    raw: bool,
)
    requires
        with.emph,
        !without.emph,
        with.slanted == without.slanted,
    ensures
        resolved(inherited, with, raw).italic == !resolved(inherited, without, raw).italic,
{
    emphasis_toggles_the_slant(inherited, with, raw);
    emphasis_toggles_the_slant(inherited, without, raw);
}

/// Text is bold where its weight, with what strong emphasis adds to it, reaches
/// 600 or what is around it is bold; strong emphasis that adds to the weight is
/// stated as such.
pub proof fn heavy_text_is_bold(inherited: RunLook, style: TextStyle, raw: bool)
    ensures
        inherited.bold ==> resolved(inherited, style, raw).bold,
        style.weight + style.strong_delta >= 600 ==> resolved(inherited, style, raw).bold,
        !inherited.bold && style.weight + style.strong_delta < 600 ==> !resolved(
            inherited,
            style,
            raw,
        ).bold,
        resolved(inherited, style, raw).strong <==> inherited.strong || style.strong_delta > 0,
{
    lemma_decorated(face_of(inherited, style, raw), style.decos@);
}

/// Adding weight never makes bold text lighter.
pub proof fn more_weight_stays_bold(
    inherited: RunLook,
    light: TextStyle,
    heavy: TextStyle,
    raw: bool,
)
    requires
        light.weight + light.strong_delta <= heavy.weight + heavy.strong_delta,
        resolved(inherited, light, raw).bold,
    ensures
        resolved(inherited, heavy, raw).bold,
{
    heavy_text_is_bold(inherited, light, raw);
    heavy_text_is_bold(inherited, heavy, raw);
}

/// Text has the size, the language and the reading order of its style, the font
/// and the shift that it names, and what case, spacing and height it sets; where it
/// sets none, what is around it goes through.
pub proof fn text_has_the_properties_of_its_style(
    inherited: RunLook,
    style: TextStyle,
    raw: bool,
)
    ensures
        ({
            let r = resolved(inherited, style, raw);
            &&& r.size_half_pt == Some(style.size_half_pt)
            &&& style.font is Some ==> r.font == Some(style.font.unwrap()@)
            &&& style.font is None ==> r.font == inherited.font
            &&& style.shift is Some ==> r.vert_align == style.shift
            &&& style.shift is None ==> r.vert_align == inherited.vert_align
            &&& r.caps <==> inherited.caps || style.upper
            &&& r.smallcaps <==> inherited.smallcaps || style.smallcaps
            &&& r.rtl <==> inherited.rtl || style.right_to_left
            &&& r.cs <==> inherited.cs || style.right_to_left
            &&& r.no_proof <==> inherited.no_proof || raw
            &&& style.region is None ==> r.lang == Some(style.lang@)
            &&& style.region is Some ==> r.lang == Some(
                style.lang@ + seq!['-'] + style.region.unwrap()@,
            )
            &&& style.tracking == 0 ==> r.tracking == inherited.tracking
            &&& style.tracking != 0 ==> r.tracking is Some
            &&& style.baseline == 0 ==> r.position_half_pt == inherited.position_half_pt
            &&& style.baseline > 0 ==> r.position_half_pt is Some
                && r.position_half_pt.unwrap() <= 0
            &&& style.baseline < 0 ==> r.position_half_pt is Some
                && r.position_half_pt.unwrap() >= 0
            &&& style.paint is Solid ==> r.color == Some(style.paint->color)
            &&& style.paint is Gradient ==> r.color == style.paint->flat
            &&& style.paint is Tiling ==> r.color == inherited.color
            &&& r.style == inherited.style
            &&& r.vanish == inherited.vanish
            &&& r.bdr == inherited.bdr
            &&& r.review_origin == inherited.review_origin
        }),
{
    reveal_strlit("-");
    assert("-"@ =~= seq!['-']);
    lemma_decorated(face_of(inherited, style, raw), style.decos@);
    let b = -2 * style.baseline;
    assert(b >= 0 ==> (2 * b + 1_000_000) / 2_000_000 >= 0) by (nonlinear_arith);
    assert(b < 0 ==> (-2 * b + 1_000_000) / 2_000_000 >= 0) by (nonlinear_arith);
}

/// A link that sets its own color keeps it and is not underlined by its style;
/// other text has no underline but that of what is around it and its decorations.
pub proof fn colored_links_are_not_underlined(
    inherited: RunLook,
    style: TextStyle,
    raw: bool,
)
    requires
        forall|i: int| 0 <= i < style.decos@.len() ==> !((#[trigger] style.decos@[i]) is Underline),
    ensures
        inherited.style == Some("Hyperlink"@) && style.paint is Solid && style.paint->explicit
            && inherited.underline is None ==> {
            let r = resolved(inherited, style, raw);
            r.preserve_color && r.underline is Some && r.underline.unwrap().val == "none"@
        },
        !inherited.preserve_color && inherited.style != Some("Hyperlink"@) ==> {
            let r = resolved(inherited, style, raw);
            !r.preserve_color && r.underline == inherited.underline
        },
        inherited.underline is Some ==> resolved(inherited, style, raw).underline
            == inherited.underline,
{
    lemma_decorated(face_of(inherited, style, raw), style.decos@);
}

// -- Decorations -------------------------------------------------------------

spec fn face_of(inherited: RunLook, style: TextStyle, raw: bool) -> RunLook {
    let sized = RunLook {
        no_proof: inherited.no_proof || raw,
        size_half_pt: Some(style.size_half_pt),
        ..inherited
    };
    crate::ctx::format::faced(crate::ctx::format::painted(sized, style.paint), style)
}

proof fn lemma_frame(p: RunLook, decos: Seq<Deco>)
    ensures
        decorated(p, decos) == (RunLook {
            underline: decorated(p, decos).underline,
            strike: decorated(p, decos).strike,
            highlight: decorated(p, decos).highlight,
            shd_fill: decorated(p, decos).shd_fill,
            ..p
        }),
    decreases decos.len(),
{
    if decos.len() > 0 {
        lemma_frame(p, decos.drop_last());
    }
}

proof fn lemma_struck(p: RunLook, decos: Seq<Deco>)
    ensures
        decorated(p, decos).strike <==> p.strike || exists|i: int|
            0 <= i < decos.len() && (#[trigger] decos[i]) is Strikethrough,
    decreases decos.len(),
{
    if decos.len() > 0 {
        let rest = decos.drop_last();
        lemma_struck(p, rest);
        let last = decos[decos.len() - 1];
        assert(decorated(p, decos).strike == (decorated(p, rest).strike || last is Strikethrough));
        if exists|i: int| 0 <= i < rest.len() && (#[trigger] rest[i]) is Strikethrough {
            let i = choose|i: int| 0 <= i < rest.len() && (#[trigger] rest[i]) is Strikethrough;
            assert(decos[i] is Strikethrough);
        }
        if exists|i: int| 0 <= i < decos.len() && (#[trigger] decos[i]) is Strikethrough {
            let i = choose|i: int| 0 <= i < decos.len() && (#[trigger] decos[i]) is Strikethrough;
            if i < rest.len() {
                assert(rest[i] is Strikethrough);
            }
        }
    }
}

proof fn lemma_plain(p: RunLook, decos: Seq<Deco>)
    ensures
        (forall|i: int| 0 <= i < decos.len() ==> !((#[trigger] decos[i]) is Underline))
            ==> decorated(p, decos).underline == p.underline,
        (forall|i: int| 0 <= i < decos.len() ==> !((#[trigger] decos[i]) is Highlight))
            ==> decorated(p, decos).highlight == p.highlight && decorated(p, decos).shd_fill
            == p.shd_fill,
    decreases decos.len(),
{
    if decos.len() > 0 {
        let rest = decos.drop_last();
        lemma_plain(p, rest);
        assert forall|i: int| 0 <= i < rest.len() implies rest[i] == decos[i] by {}
        assert(decos.last() == decos[decos.len() - 1]);
    }
}

proof fn lemma_decorated(p: RunLook, decos: Seq<Deco>)
    ensures
        decorated(p, decos) == (RunLook {
            underline: decorated(p, decos).underline,
            strike: decorated(p, decos).strike,
            highlight: decorated(p, decos).highlight,
            shd_fill: decorated(p, decos).shd_fill,
            ..p
        }),
        decorated(p, decos).strike <==> p.strike || exists|i: int|
            0 <= i < decos.len() && (#[trigger] decos[i]) is Strikethrough,
        (forall|i: int| 0 <= i < decos.len() ==> !((#[trigger] decos[i]) is Underline))
            ==> decorated(p, decos).underline == p.underline,
        (forall|i: int| 0 <= i < decos.len() ==> !((#[trigger] decos[i]) is Highlight))
            ==> decorated(p, decos).highlight == p.highlight && decorated(p, decos).shd_fill
            == p.shd_fill,
{
    lemma_frame(p, decos);
    lemma_struck(p, decos);
    lemma_plain(p, decos);
}

proof fn lemma_last_deco(p: RunLook, decos: Seq<Deco>, k: int)
    requires
        0 <= k < decos.len(),
    ensures
        decos[k] is Underline && (forall|i: int|
            k < i < decos.len() ==> !((#[trigger] decos[i]) is Underline)) ==> decorated(
            p,
            decos,
        ).underline == Some(stroke_underline(decos[k]->Underline_0)),
        decos[k] is Highlight && (forall|i: int|
            k < i < decos.len() ==> !((#[trigger] decos[i]) is Highlight)) ==> {
            let rgb = highlight_color(decos[k]->Highlight_0);
            &&& decorated(p, decos).highlight == highlight_name(rgb)
            &&& decorated(p, decos).shd_fill == (if highlight_name(rgb) is Some {
                None
            } else {
                Some(rgb)
            })
        },
    decreases decos.len(),
{
    let rest = decos.drop_last();
    if k < rest.len() {
        lemma_last_deco(p, rest, k);
        assert(rest[k] == decos[k]);
        assert(decos.last() == decos[decos.len() - 1]);
        assert forall|i: int| 0 <= i < rest.len() implies rest[i] == decos[i] by {}
    }
}

/// Text is struck through exactly where what is around it is, or one of its
/// decorations strikes it through.
pub proof fn strikethrough_shows(inherited: RunLook, style: TextStyle, raw: bool)
    ensures
        resolved(inherited, style, raw).strike <==> inherited.strike || exists|i: int|
            0 <= i < style.decos@.len() && (#[trigger] style.decos@[i]) is Strikethrough,
{
    lemma_decorated(face_of(inherited, style, raw), style.decos@);
}

/// The last underline among the decorations of text shows: a line in its color,
/// solid without a dash pattern, dotted where the pattern only draws dots, dashed
/// where it only draws dashes, and in turn where it draws both.
pub proof fn underlines_show(inherited: RunLook, style: TextStyle, raw: bool, k: int)
    requires
        0 <= k < style.decos@.len(),
        style.decos@[k] is Underline,
        forall|i: int|
            k < i < style.decos@.len() ==> !((#[trigger] style.decos@[i]) is Underline),
    ensures
        resolved(inherited, style, raw).underline is Some,
        ({
            let shown = resolved(inherited, style, raw).underline.unwrap();
            let stroke = style.decos@[k]->Underline_0;
            &&& shown.color == stroke.color
            &&& stroke.dash is None ==> shown.val == "single"@
            &&& stroke.dash matches Some(d) ==> {
                let dots = exists|i: int|
                    0 <= i < d@.len() && i % 2 == 0 && (#[trigger] d@[i]) is LineWidth;
                let dashes = exists|i: int|
                    0 <= i < d@.len() && i % 2 == 0 && (#[trigger] d@[i]) is Length;
                &&& d@.len() == 0 ==> shown.val == "single"@
                &&& dots && dashes ==> shown.val == "dotDash"@
                &&& dots && !dashes ==> shown.val == "dotted"@
                &&& !dots && dashes ==> shown.val == "dash"@
            }
        }),
{
    lemma_last_deco(face_of(inherited, style, raw), style.decos@, k);
}

/// The last highlight among the decorations of text shows: by the name of its
/// color where it has one, and as shading in exactly that color otherwise.
pub proof fn highlights_show(inherited: RunLook, style: TextStyle, raw: bool, k: int)
    requires
        0 <= k < style.decos@.len(),
        style.decos@[k] is Highlight,
        forall|i: int|
            k < i < style.decos@.len() ==> !((#[trigger] style.decos@[i]) is Highlight),
    ensures
        ({
            let r = resolved(inherited, style, raw);
            let rgb = highlight_color(style.decos@[k]->Highlight_0);
            &&& r.highlight is Some <==> r.shd_fill is None
            &&& r.highlight == highlight_name(rgb)
            &&& r.highlight is None ==> r.shd_fill == Some(rgb)
        }),
{
    lemma_last_deco(face_of(inherited, style, raw), style.decos@, k);
}

/// A highlight has its composited color, unless its own is the default one or it
/// is a gradient, which shows its representative color.
pub proof fn highlights_have_their_color(own: [u8; 3], composited: [u8; 3])
    ensures
        own@ != seq![0xFFu8, 0xFDu8, 0x11u8] ==> highlight_color(
            HighlightPaint::Solid { own, composited },
        ) == composited,
        own@ == seq![0xFFu8, 0xFDu8, 0x11u8] ==> highlight_color(
            HighlightPaint::Solid { own, composited },
        )@ == own@,
        highlight_color(HighlightPaint::Gradient(Some(own))) == own,
        highlight_color(HighlightPaint::Gradient(None))@ == seq![0xFFu8, 0xFDu8, 0x11u8],
        highlight_color(HighlightPaint::Other)@ == seq![0xFFu8, 0xFDu8, 0x11u8],
{
    assert(crate::ctx::format::DEFAULT_HIGHLIGHT@ =~= seq![0xFFu8, 0xFDu8, 0x11u8]);
    if own@ == seq![0xFFu8, 0xFDu8, 0x11u8] {
        assert(own =~= crate::ctx::format::DEFAULT_HIGHLIGHT);
    }
}

/// Whether each channel of a color is at most 24 away from the given one.
pub open spec fn near(rgb: [u8; 3], r: int, g: int, b: int) -> bool {
    &&& r - 24 <= rgb@[0] <= r + 24
    &&& g - 24 <= rgb@[1] <= g + 24
    &&& b - 24 <= rgb@[2] <= b + 24
}

proof fn lemma_near_is_nearest(rgb: [u8; 3], k: int)
    requires
        0 <= k < 16,
        near(
            rgb,
            named_highlight(k).1.0,
            named_highlight(k).1.1,
            named_highlight(k).1.2,
        ),
    ensures
        highlight_name(rgb) == Some(named_highlight(k).0),
{
    reveal(highlight_name);
    assert(highlight_distance(rgb, k) <= 24);
    assert forall|j: int| 0 <= j < 16 && j != k implies highlight_distance(rgb, k)
        < #[trigger] highlight_distance(rgb, j) by {}
    assert(is_nearest_highlight(rgb, k));
    let c = choose|c: int| is_nearest_highlight(rgb, c);
    lemma_nearest_unique(rgb, k, c);
}

/// A color close to one of the sixteen named highlights goes by that name.
pub proof fn highlights_go_by_name(rgb: [u8; 3])
    ensures
        near(rgb, 0, 0, 0) ==> highlight_name(rgb) == Some("black"@),
        near(rgb, 0, 0, 255) ==> highlight_name(rgb) == Some("blue"@),
        near(rgb, 0, 255, 255) ==> highlight_name(rgb) == Some("cyan"@),
        near(rgb, 0, 0, 128) ==> highlight_name(rgb) == Some("darkBlue"@),
        near(rgb, 0, 128, 128) ==> highlight_name(rgb) == Some("darkCyan"@),
        near(rgb, 128, 128, 128) ==> highlight_name(rgb) == Some("darkGray"@),
        near(rgb, 0, 128, 0) ==> highlight_name(rgb) == Some("darkGreen"@),
        near(rgb, 128, 0, 128) ==> highlight_name(rgb) == Some("darkMagenta"@),
        near(rgb, 128, 0, 0) ==> highlight_name(rgb) == Some("darkRed"@),
        near(rgb, 128, 128, 0) ==> highlight_name(rgb) == Some("darkYellow"@),
        near(rgb, 0, 255, 0) ==> highlight_name(rgb) == Some("green"@),
        near(rgb, 192, 192, 192) ==> highlight_name(rgb) == Some("lightGray"@),
        near(rgb, 255, 0, 255) ==> highlight_name(rgb) == Some("magenta"@),
        near(rgb, 255, 0, 0) ==> highlight_name(rgb) == Some("red"@),
        near(rgb, 255, 255, 255) ==> highlight_name(rgb) == Some("white"@),
        near(rgb, 255, 255, 0) ==> highlight_name(rgb) == Some("yellow"@),
        highlight_name(rgb) is Some ==> near(rgb, 0, 0, 0) || near(rgb, 0, 0, 255) || near(
            rgb,
            0,
            255,
            255,
        ) || near(rgb, 0, 0, 128) || near(rgb, 0, 128, 128) || near(rgb, 128, 128, 128) || near(
            rgb,
            0,
            128,
            0,
        ) || near(rgb, 128, 0, 128) || near(rgb, 128, 0, 0) || near(rgb, 128, 128, 0) || near(
            rgb,
            0,
            255,
            0,
        ) || near(rgb, 192, 192, 192) || near(rgb, 255, 0, 255) || near(rgb, 255, 0, 0) || near(
            rgb,
            255,
            255,
            255,
        ) || near(rgb, 255, 255, 0),
{
    assert forall|k: int|
        0 <= k < 16 && near(
            rgb,
            (#[trigger] named_highlight(k)).1.0,
            named_highlight(k).1.1,
            named_highlight(k).1.2,
        ) implies highlight_name(rgb) == Some(named_highlight(k).0) by {
        lemma_near_is_nearest(rgb, k);
    }
    assert(named_highlight(0).1 == (0int, 0int, 0int));
    assert(named_highlight(1).1 == (0int, 0int, 255int));
    assert(named_highlight(2).1 == (0int, 255int, 255int));
    assert(named_highlight(3).1 == (0int, 0int, 128int));
    assert(named_highlight(4).1 == (0int, 128int, 128int));
    assert(named_highlight(5).1 == (128int, 128int, 128int));
    assert(named_highlight(6).1 == (0int, 128int, 0int));
    assert(named_highlight(7).1 == (128int, 0int, 128int));
    assert(named_highlight(8).1 == (128int, 0int, 0int));
    assert(named_highlight(9).1 == (128int, 128int, 0int));
    assert(named_highlight(10).1 == (0int, 255int, 0int));
    assert(named_highlight(11).1 == (192int, 192int, 192int));
    assert(named_highlight(12).1 == (255int, 0int, 255int));
    assert(named_highlight(13).1 == (255int, 0int, 0int));
    assert(named_highlight(14).1 == (255int, 255int, 255int));
    assert(named_highlight(15).1 == (255int, 255int, 0int));
    if highlight_name(rgb) is Some {
        reveal(highlight_name);
        let c = choose|c: int| is_nearest_highlight(rgb, c);
        assert(near(
            rgb,
            named_highlight(c).1.0,
            named_highlight(c).1.1,
            named_highlight(c).1.2,
        ));
    }
}

// -- Formatting elements -----------------------------------------------------

/// A formatting element adds its formatting, and only that, to what is around it.
pub proof fn formatting_elements_add_their_formatting(
    p: RunLook,
    wrapper: Wrapper,
    origin: ReviewOrigin,
)
    ensures
        ({
            let r = wrapped(p, wrapper, origin);
            &&& r.strong <==> p.strong || wrapper is Strong
            &&& r.bold <==> p.bold || wrapper is Strong
            &&& r.emphasis <==> p.emphasis || wrapper is Emph
            &&& r.italic <==> p.italic || wrapper is Emph
            &&& r.strike <==> p.strike || wrapper is Strike
            &&& r.smallcaps <==> p.smallcaps || wrapper is Smallcaps
            &&& wrapper is Sub ==> r.vert_align == Some(VertAlign::Sub)
            &&& wrapper is Super ==> r.vert_align == Some(VertAlign::Super)
            &&& !(wrapper is Sub) && !(wrapper is Super) ==> r.vert_align == p.vert_align
            &&& wrapper is Underline ==> r.underline is Some
            &&& wrapper is Underline && wrapper->Underline_0 is None ==> {
                &&& r.underline.unwrap().val == "single"@
                &&& r.underline.unwrap().color is None
            }
            &&& wrapper is Underline && wrapper->Underline_0 is Some
                ==> r.underline.unwrap().color == wrapper->Underline_0.unwrap().color
            &&& !(wrapper is Underline) ==> r.underline == p.underline
            &&& !(wrapper is Highlight) ==> r.highlight == p.highlight && r.shd_fill
                == p.shd_fill
            &&& wrapper is Highlight ==> {
                let rgb = highlight_color(wrapper->Highlight_0);
                &&& r.highlight == highlight_name(rgb)
                &&& r.highlight is None ==> r.shd_fill == Some(rgb)
            }
            &&& wrapper is Smallcaps ==> r.review_origin == p.review_origin
            &&& !(wrapper is Smallcaps) ==> r.review_origin == Some(origin)
            &&& r.size_half_pt == p.size_half_pt
            &&& r.font == p.font
            &&& r.color == p.color
            &&& r.style == p.style
            &&& r.caps == p.caps
            &&& r.lang == p.lang
            &&& r.rtl == p.rtl
        }),
{
}

// -- Paragraphs --------------------------------------------------------------

/// A paragraph is justified where its text is, and otherwise aligned to the side
/// that its alignment names in its reading order; the side at which left-to-right
/// text starts goes without saying.
pub proof fn paragraphs_are_aligned(p: ParaProps, style: ParStyle, numbered_lines: bool)
    requires
        is_par_formatting(p, style, numbered_lines),
    ensures
        style.justify ==> p.jc == Some(Jc::Both),
        !style.justify && style.align is Center ==> p.jc == Some(Jc::Center),
        !style.justify && style.align is Start && !style.right_to_left ==> p.jc is None,
        !style.justify && style.align is Start && style.right_to_left ==> p.jc == Some(Jc::End),
        !style.justify && style.align is End && !style.right_to_left ==> p.jc == Some(Jc::End),
        !style.justify && style.align is End && style.right_to_left ==> p.jc == Some(Jc::Start),
        p.bidi <==> style.right_to_left,
        p.suppress_line_numbers <==> numbered_lines && !style.line_numbers,
        p.spacing matches Some(s) ==> s.before == s.after && !s.line_rule_auto,
        p.typst_par_spacing_before == p.typst_par_spacing_after,
        p.ind matches Some(i) ==> i.left is None && i.right is None,
{
}

/// Alignments on opposite sides stay on opposite sides in either reading order,
/// and the center stays the center.
pub proof fn reading_order_turns_sides_over(right_to_left: bool)
    ensures
        align_jc(FixedAlignment::Start, right_to_left) != align_jc(
            FixedAlignment::End,
            right_to_left,
        ),
        align_jc(FixedAlignment::Start, right_to_left) != align_jc(
            FixedAlignment::Start,
            !right_to_left,
        ),
        align_jc(FixedAlignment::End, right_to_left) != align_jc(
            FixedAlignment::End,
            !right_to_left,
        ),
        align_jc(FixedAlignment::Center, right_to_left) == align_jc(
            FixedAlignment::Center,
            !right_to_left,
        ),
        align_jc(FixedAlignment::Start, true) == align_jc(FixedAlignment::End, false),
{
}

/// A line of text is as high as the edges of its font, and as high as the font size
/// where the edges follow the glyphs, are not known, or leave no height.
pub proof fn lines_have_the_height_of_their_font(
    follows_glyphs: bool,
    edges: Option<i64>,
    font_size: i64,
)
    ensures
        follows_glyphs || edges is None ==> frame_height(follows_glyphs, edges, font_size)
            == font_size,
        !follows_glyphs && edges is Some && edges.unwrap() > 0 ==> frame_height(
            follows_glyphs,
            edges,
            font_size,
        ) == edges.unwrap(),
        font_size > 0 ==> frame_height(follows_glyphs, edges, font_size) > 0,
{
}

/// A paragraph keeps the distance of its spacing to its neighbors, as far as it goes
/// beyond the leading that every line has, on both sides alike.
pub proof fn paragraphs_keep_their_distance(p: ParaProps, style: ParStyle, numbered_lines: bool)
    requires
        is_par_formatting(p, style, numbered_lines),
    ensures
        ({
            let gap = twips(style.spacing as int) - twips(style.leading as int);
            &&& gap <= 0 ==> p.typst_par_spacing_before is None && (p.spacing is Some
                ==> p.spacing.unwrap().before is None)
            &&& 0 < gap <= i32::MAX ==> {
                &&& p.typst_par_spacing_before == Some(gap as i32)
                &&& p.spacing is Some
                &&& p.spacing.unwrap().before == Some(gap as i32)
                &&& p.spacing.unwrap().after == Some(gap as i32)
            }
        }),
{
}

/// A paragraph states the distance of its lines exactly where its leading is not
/// the usual 0.65 of its font size, give or take a thousandth of a point.
pub proof fn unusual_leading_is_stated(p: ParaProps, style: ParStyle, numbered_lines: bool)
    requires
        is_par_formatting(p, style, numbered_lines),
    ensures
        ({
            let off = 100 * style.leading - 65 * style.font_size;
            &&& -100_000 <= off <= 100_000 ==> p.spacing is None
                || p.spacing.unwrap().line is None
            &&& off > 100_000 || off < -100_000 ==> {
                &&& p.spacing is Some
                &&& p.spacing.unwrap().line_rule_at_least
                &&& i64::MIN <= style.leading + style.frame_height <= i64::MAX
                    ==> p.spacing.unwrap().line == Some(
                    twips(style.leading + style.frame_height),
                )
            }
        }),
{
}

/// A paragraph is indented by its first-line indent where all are, and hangs by its
/// hanging indent.
pub proof fn paragraphs_are_indented(p: ParaProps, style: ParStyle, numbered_lines: bool)
    requires
        is_par_formatting(p, style, numbered_lines),
    ensures
        style.indent_all && twips(style.first_line_indent as int) != 0 ==> p.ind is Some
            && p.ind.unwrap().first_line == Some(twips(style.first_line_indent as int)),
        !style.indent_all && p.ind is Some ==> p.ind.unwrap().first_line is None,
        twips(style.hanging_indent as int) != 0 ==> p.ind is Some && p.ind.unwrap().hanging
            == Some(twips(style.hanging_indent as int)),
        twips(style.hanging_indent as int) == 0 && p.ind is Some ==> p.ind.unwrap().hanging is None,
        twips(style.hanging_indent as int) == 0 && (!style.indent_all || twips(
            style.first_line_indent as int,
        ) == 0) ==> p.ind is None,
{
}

} // verus!
