//! A textual identity of lowered page furniture.
//!
//! Furniture is lowered once per probe page. Two probes are taken for the same
//! furniture exactly when their signatures are equal. A signature shows the text
//! and the formatting, and leaves out what may differ between probes of one
//! reusable part: identifiers of bookmarks and comment ranges, tags, relationship
//! identifiers and the cached glyphs of live fields.

use vstd::prelude::*;

use crate::document::edits::{
    lemma_edits_show, edited_blocks, tells_block, tells_blocks, tells_cell, tells_cells,
    tells_child, tells_children, tells_drawing, tells_group, tells_group_child, tells_para,
    tells_paras, tells_props, tells_row, tells_rows, tells_run, tells_runs, tells_shape,
    told_apart,
};
use crate::dom::{
    Anchor, AnchorWrap, Block, BreakKind, Cell, Drawing, Field, FieldDisplay, FieldMode,
    GradientStop, GroupChild, GroupSpec, Jc, Para, ParaChild, ParaProps, PathSegment, Row, Run,
    RunProps, SectPr, ShapeFill, ShapeGeom, ShapeSpec, ShapeStroke, TabAlign, TabLeader, TabStop,
    Tbl, TileImage, Toc, Underline, VAlign, VMerge, VertAlign,
};
use crate::text::{dec, opt_str, push_i64};

verus! {

/// The debug notation of a string, as `str`'s `Debug` writes it.
pub uninterp spec fn debug_text(s: Seq<char>) -> Seq<char>;

/// `<str as Debug>::fmt`, through `format!`: the string in quotes with its
/// special characters escaped. The result is a function of the characters. Each
/// character stands for itself or as its literal escape code, and quotes and
/// backslashes are always escaped, so that no other string has this notation.
#[verifier::external_body]
fn debug_str(s: &str) -> (r: String)
    ensures
        r@ == debug_text(s@),
        forall|t: Seq<char>| #[trigger] debug_text(t) == r@ ==> t == s@,
{
    format!("{:?}", s)
}

// ---------------------------------------------------------------------------
// Debug notation of plain values.
// ---------------------------------------------------------------------------

/// The notation of a truth value.
pub open spec fn show_bool(b: bool) -> Seq<char> {
    if b {
        "true"@
    } else {
        "false"@
    }
}

/// The debug notation of an optional value, given that of the value.
pub open spec fn show_opt(v: Option<Seq<char>>) -> Seq<char> {
    match v {
        Some(t) => "Some("@ + t + ")"@,
        None => "None"@,
    }
}

/// The debug notation of an optional integer.
pub open spec fn show_opt_int(v: Option<int>) -> Seq<char> {
    show_opt(
        match v {
            Some(n) => Some(dec(n)),
            None => None,
        },
    )
}

/// The debug notation of an optional string.
pub open spec fn show_opt_str(v: Option<Seq<char>>) -> Seq<char> {
    show_opt(
        match v {
            Some(s) => Some(debug_text(s)),
            None => None,
        },
    )
}

/// The items of a list, separated by commas.
pub open spec fn comma_list(items: Seq<Seq<char>>) -> Seq<char>
    decreases items.len(),
{
    if items.len() == 0 {
        Seq::empty()
    } else if items.len() == 1 {
        items[0]
    } else {
        comma_list(items.drop_last()) + ", "@ + items.last()
    }
}

/// The debug notation of a list.
pub open spec fn show_list(items: Seq<Seq<char>>) -> Seq<char> {
    "["@ + comma_list(items) + "]"@
}

/// The debug notation of a list of integers.
pub open spec fn show_ints(s: Seq<int>) -> Seq<char> {
    show_list(s.map_values(|n: int| dec(n)))
}

/// The debug notation of an optional color.
pub open spec fn show_opt_rgb(c: Option<[u8; 3]>) -> Seq<char> {
    show_opt(
        match c {
            Some(v) => Some(show_ints(v@.map_values(|b: u8| b as int))),
            None => None,
        },
    )
}

/// The characters behind an optional literal.
pub open spec fn opt_lit(v: Option<&str>) -> Option<Seq<char>> {
    match v {
        Some(s) => Some(s@),
        None => None,
    }
}

/// An optional integer.
pub open spec fn opt_i32(v: Option<i32>) -> Option<int> {
    match v {
        Some(n) => Some(n as int),
        None => None,
    }
}

/// An optional integer.
pub open spec fn opt_u32(v: Option<u32>) -> Option<int> {
    match v {
        Some(n) => Some(n as int),
        None => None,
    }
}

/// An optional integer.
pub open spec fn opt_u8(v: Option<u8>) -> Option<int> {
    match v {
        Some(n) => Some(n as int),
        None => None,
    }
}

/// An optional integer.
pub open spec fn opt_i64(v: Option<i64>) -> Option<int> {
    match v {
        Some(n) => Some(n as int),
        None => None,
    }
}

/// An optional integer.
pub open spec fn opt_usize(v: Option<usize>) -> Option<int> {
    match v {
        Some(n) => Some(n as int),
        None => None,
    }
}

fn push_bool(out: &mut String, b: bool)
    ensures
        final(out)@ == old(out)@ + show_bool(b),
{
    if b {
        out.append("true");
    } else {
        out.append("false");
    }
}

fn push_opt_text(out: &mut String, v: Option<&str>)
    ensures
        final(out)@ == old(out)@ + show_opt(opt_lit(v)),
{
    match v {
        Some(s) => {
            out.append("Some(");
            out.append(s);
            out.append(")");
            assert(out@ =~= old(out)@ + ("Some("@ + s@ + ")"@));
        }
        None => {
            out.append("None");
        }
    }
}

fn push_opt_lit(out: &mut String, v: Option<&str>)
    ensures
        final(out)@ == old(out)@ + show_opt_str(opt_lit(v)),
        v matches Some(s) ==> told_apart(s@),
{
    match v {
        Some(s) => {
            let t: String = debug_str(s);
            push_opt_text(out, Some(t.as_str()));
        }
        None => {
            push_opt_text(out, None);
        }
    }
}

fn push_opt_string(out: &mut String, v: &Option<String>)
    ensures
        final(out)@ == old(out)@ + show_opt_str(opt_str(*v)),
        *v matches Some(s) ==> told_apart(s@),
{
    match v {
        Some(s) => {
            push_opt_lit(out, Some(s.as_str()));
        }
        None => {
            push_opt_lit(out, None);
        }
    }
}

fn push_opt_i64(out: &mut String, v: Option<i64>)
    ensures
        final(out)@ == old(out)@ + show_opt_int(opt_i64(v)),
{
    match v {
        Some(n) => {
            let t: String = crate::text::dec_i64(n);
            push_opt_text(out, Some(t.as_str()));
        }
        None => {
            push_opt_text(out, None);
        }
    }
}

fn push_opt_i32(out: &mut String, v: Option<i32>)
    ensures
        final(out)@ == old(out)@ + show_opt_int(opt_i32(v)),
{
    match v {
        Some(n) => {
            push_opt_i64(out, Some(n as i64));
        }
        None => {
            push_opt_i64(out, None);
        }
    }
}

fn push_opt_u32(out: &mut String, v: Option<u32>)
    ensures
        final(out)@ == old(out)@ + show_opt_int(opt_u32(v)),
{
    match v {
        Some(n) => {
            push_opt_i64(out, Some(n as i64));
        }
        None => {
            push_opt_i64(out, None);
        }
    }
}

fn push_opt_u8(out: &mut String, v: Option<u8>)
    ensures
        final(out)@ == old(out)@ + show_opt_int(opt_u8(v)),
{
    match v {
        Some(n) => {
            push_opt_i64(out, Some(n as i64));
        }
        None => {
            push_opt_i64(out, None);
        }
    }
}

fn push_opt_usize(out: &mut String, v: Option<usize>)
    ensures
        final(out)@ == old(out)@ + show_opt_int(opt_usize(v)),
{
    match v {
        Some(n) => {
            let t: String = crate::text::dec_u64(n as u64);
            push_opt_text(out, Some(t.as_str()));
        }
        None => {
            push_opt_text(out, None);
        }
    }
}

/// The notation of the first `n` of the items of a list.
proof fn lemma_comma_step(items: Seq<Seq<char>>, n: int)
    requires
        0 < n < items.len(),
    ensures
        comma_list(items.take(n + 1)) == comma_list(items.take(n)) + ", "@ + items[n],
{
    assert(items.take(n + 1).drop_last() =~= items.take(n));
}

fn push_ints(out: &mut String, v: &Vec<i64>)
    ensures
        final(out)@ == old(out)@ + show_ints(v@.map_values(|n: i64| n as int)),
{
    let ghost items = v@.map_values(|n: i64| n as int).map_values(|n: int| dec(n));
    out.append("[");
    let ghost start = out@;
    let mut i: usize = 0;
    assert(items.take(0) =~= Seq::<Seq<char>>::empty());
    assert(out@ =~= start + comma_list(items.take(0)));
    while i < v.len()
        invariant
            i <= v.len(),
            items == v@.map_values(|n: i64| n as int).map_values(|n: int| dec(n)),
            out@ == start + comma_list(items.take(i as int)),
        decreases v.len() - i,
    {
        let ghost before = out@;
        if i > 0 {
            out.append(", ");
        }
        push_i64(out, v[i]);
        proof {
            if i > 0 {
                lemma_comma_step(items, i as int);
                assert(out@ =~= start + comma_list(items.take(i + 1)));
            } else {
                assert(items.take(1)[0] == items[0]);
                assert(out@ =~= start + comma_list(items.take(1)));
            }
        }
        i = i + 1;
    }
    assert(items.take(i as int) =~= items);
    out.append("]");
    assert(out@ =~= old(out)@ + show_ints(v@.map_values(|n: i64| n as int)));
}

fn push_opt_rgb(out: &mut String, c: Option<[u8; 3]>)
    ensures
        final(out)@ == old(out)@ + show_opt_rgb(c),
{
    match c {
        Some(v) => {
            let mut t: String = String::new();
            let ints: Vec<i64> = vec![v[0] as i64, v[1] as i64, v[2] as i64];
            push_ints(&mut t, &ints);
            assert(ints@.map_values(|n: i64| n as int) =~= v@.map_values(|b: u8| b as int));
            assert(t@ =~= show_ints(v@.map_values(|b: u8| b as int)));
            push_opt_text(out, Some(t.as_str()));
        }
        None => {
            push_opt_text(out, None);
        }
    }
}

/// The notation of an alignment.
pub open spec fn jc_text(v: Option<Jc>) -> Seq<char> {
    match v {
        Some(Jc::Start) => "start"@,
        Some(Jc::End) => "end"@,
        Some(Jc::Center) => "center"@,
        Some(Jc::Both) => "both"@,
        None => ""@,
    }
}

/// The notation of an alignment.
pub fn jc_name(v: Option<Jc>) -> (r: &'static str)
    ensures
        r@ == jc_text(v),
{
    match v {
        Some(Jc::Start) => "start",
        Some(Jc::End) => "end",
        Some(Jc::Center) => "center",
        Some(Jc::Both) => "both",
        None => "",
    }
}

/// The notation of a tab alignment.
pub open spec fn tab_align_text(v: TabAlign) -> Seq<char> {
    match v {
        TabAlign::Start => "start"@,
        TabAlign::End => "end"@,
        TabAlign::Center => "center"@,
    }
}

/// The notation of a tab alignment.
pub fn tab_align_name(v: TabAlign) -> (r: &'static str)
    ensures
        r@ == tab_align_text(v),
{
    match v {
        TabAlign::Start => "start",
        TabAlign::End => "end",
        TabAlign::Center => "center",
    }
}

/// The notation of a tab leader.
pub open spec fn tab_leader_text(v: TabLeader) -> Seq<char> {
    match v {
        TabLeader::Dot => "dot"@,
        TabLeader::Hyphen => "hyphen"@,
        TabLeader::Underscore => "underscore"@,
    }
}

/// The notation of a tab leader.
pub fn tab_leader_name(v: TabLeader) -> (r: &'static str)
    ensures
        r@ == tab_leader_text(v),
{
    match v {
        TabLeader::Dot => "dot",
        TabLeader::Hyphen => "hyphen",
        TabLeader::Underscore => "underscore",
    }
}

/// The notation of a vertical text position.
pub open spec fn vert_align_text(v: Option<VertAlign>) -> Seq<char> {
    match v {
        Some(VertAlign::Super) => "super"@,
        Some(VertAlign::Sub) => "sub"@,
        None => ""@,
    }
}

/// The notation of a vertical text position.
pub fn vert_align_name(v: Option<VertAlign>) -> (r: &'static str)
    ensures
        r@ == vert_align_text(v),
{
    match v {
        Some(VertAlign::Super) => "super",
        Some(VertAlign::Sub) => "sub",
        None => "",
    }
}

/// The notation of a vertical merge.
pub open spec fn vmerge_text(v: Option<VMerge>) -> Seq<char> {
    match v {
        Some(VMerge::Restart) => "restart"@,
        Some(VMerge::Continue) => "continue"@,
        None => ""@,
    }
}

/// The notation of a vertical merge.
pub fn vmerge_name(v: Option<VMerge>) -> (r: &'static str)
    ensures
        r@ == vmerge_text(v),
{
    match v {
        Some(VMerge::Restart) => "restart",
        Some(VMerge::Continue) => "continue",
        None => "",
    }
}

/// The notation of a vertical alignment.
pub open spec fn valign_text(v: Option<VAlign>) -> Seq<char> {
    match v {
        Some(VAlign::Top) => "top"@,
        Some(VAlign::Center) => "center"@,
        Some(VAlign::Bottom) => "bottom"@,
        None => ""@,
    }
}

/// The notation of a vertical alignment.
pub fn valign_name(v: Option<VAlign>) -> (r: &'static str)
    ensures
        r@ == valign_text(v),
{
    match v {
        Some(VAlign::Top) => "top",
        Some(VAlign::Center) => "center",
        Some(VAlign::Bottom) => "bottom",
        None => "",
    }
}

/// The notation of a field mode.
pub open spec fn field_mode_text(v: FieldMode) -> Seq<char> {
    match v {
        FieldMode::Static => "Static"@,
        FieldMode::Live => "Live"@,
    }
}

/// The notation of a field mode.
pub fn field_mode_name(v: FieldMode) -> (r: &'static str)
    ensures
        r@ == field_mode_text(v),
{
    match v {
        FieldMode::Static => "Static",
        FieldMode::Live => "Live",
    }
}

/// The notation of a field display.
pub open spec fn field_display_text(v: FieldDisplay) -> Seq<char> {
    match v {
        FieldDisplay::Visible => "Visible"@,
        FieldDisplay::Hidden => "Hidden"@,
    }
}

/// The notation of a field display.
pub fn field_display_name(v: FieldDisplay) -> (r: &'static str)
    ensures
        r@ == field_display_text(v),
{
    match v {
        FieldDisplay::Visible => "Visible",
        FieldDisplay::Hidden => "Hidden",
    }
}

/// The notation of a wrap mode.
pub open spec fn anchor_wrap_text(wrap: AnchorWrap) -> Seq<char> {
    match wrap {
        AnchorWrap::TopAndBottom => "top-bottom"@,
        AnchorWrap::Square(value) => value@,
        AnchorWrap::Off => "none"@,
    }
}

/// The notation of a wrap mode.
pub fn anchor_wrap_name(wrap: AnchorWrap) -> (r: &'static str)
    ensures
        r@ == anchor_wrap_text(wrap),
{
    match wrap {
        AnchorWrap::TopAndBottom => "top-bottom",
        AnchorWrap::Square(value) => value,
        AnchorWrap::Off => "none",
    }
}

/// The notation of an underline.
pub open spec fn underline_text(u: Option<Underline>) -> Seq<char> {
    match u {
        Some(u) => u.val@ + ":"@ + show_opt_rgb(u.color),
        None => Seq::empty(),
    }
}

/// The notation of an underline.
pub fn underline_name(underline: &Option<Underline>) -> (r: String)
    ensures
        r@ == underline_text(*underline),
{
    match underline {
        Some(u) => {
            let mut out: String = u.val.to_owned();
            out.append(":");
            push_opt_rgb(&mut out, u.color);
            out
        },
        None => String::new(),
    }
}

/// The notation of run properties up to the font.
pub open spec fn before_font_text(props: RunProps) -> Seq<char> {
    "style="@ + show_opt_str(opt_str(props.style)) + ";font="@
}

/// The notation of run properties between the font and the color.
pub open spec fn behind_font_text(props: RunProps) -> Seq<char> {
    ";strong="@ + show_bool(props.strong) + ";bold="@ + show_bool(props.bold) + ";emph="@
        + show_bool(props.emphasis) + ";italic="@ + show_bool(props.italic) + ";caps="@
        + show_bool(props.caps) + ";smallcaps="@ + show_bool(props.smallcaps) + ";strike="@
        + show_bool(props.strike) + ";noproof="@ + show_bool(props.no_proof) + ";color="@
}

/// The notation of run properties between the color and the size.
pub open spec fn behind_color_text(props: RunProps) -> Seq<char> {
    ";tracking="@ + show_opt_int(opt_i32(props.tracking)) + ";pos="@ + show_opt_int(
        opt_i32(props.position_half_pt),
    ) + ";size="@
}

/// The notation of run properties from the size on.
pub open spec fn behind_size_text(props: RunProps) -> Seq<char> {
    ";highlight="@ + show_opt_str(opt_lit(props.highlight)) + ";shd="@ + show_opt_rgb(
        props.shd_fill,
    ) + ";underline="@ + underline_text(props.underline) + ";vanish="@ + show_bool(props.vanish)
        + ";vert="@ + vert_align_text(props.vert_align) + ";rtl="@ + show_bool(props.rtl)
        + ";cs="@ + show_bool(props.cs) + ";lang="@ + show_opt_str(opt_str(props.lang)) + ";"@
}

/// The notation of run properties.
pub open spec fn run_props_text(props: RunProps) -> Seq<char> {
    before_font_text(props) + show_opt_str(opt_str(props.font)) + behind_font_text(props)
        + show_opt_rgb(props.color) + behind_color_text(props) + show_opt_int(
        opt_u32(props.size_half_pt),
    ) + behind_size_text(props)
}

/// The notation of run properties, behind `acc`.
pub open spec fn sig_run_props_text(acc: Seq<char>, props: RunProps) -> Seq<char> {
    acc + run_props_text(props)
}

fn behind_font(props: &RunProps) -> (r: String)
    ensures
        r@ == behind_font_text(*props),
{
    let mut out: String = ";strong=".to_owned();
    push_bool(&mut out, props.strong);
    out.append(";bold=");
    push_bool(&mut out, props.bold);
    out.append(";emph=");
    push_bool(&mut out, props.emphasis);
    out.append(";italic=");
    push_bool(&mut out, props.italic);
    out.append(";caps=");
    push_bool(&mut out, props.caps);
    out.append(";smallcaps=");
    push_bool(&mut out, props.smallcaps);
    out.append(";strike=");
    push_bool(&mut out, props.strike);
    out.append(";noproof=");
    push_bool(&mut out, props.no_proof);
    out.append(";color=");
    out
}

fn behind_color(props: &RunProps) -> (r: String)
    ensures
        r@ == behind_color_text(*props),
{
    let mut out: String = ";tracking=".to_owned();
    push_opt_i32(&mut out, props.tracking);
    out.append(";pos=");
    push_opt_i32(&mut out, props.position_half_pt);
    out.append(";size=");
    out
}

fn behind_size(props: &RunProps) -> (r: String)
    ensures
        r@ == behind_size_text(*props),
{
    let mut out: String = ";highlight=".to_owned();
    push_opt_lit(&mut out, props.highlight);
    out.append(";shd=");
    push_opt_rgb(&mut out, props.shd_fill);
    out.append(";underline=");
    let u: String = underline_name(&props.underline);
    out.append(u.as_str());
    out.append(";vanish=");
    push_bool(&mut out, props.vanish);
    out.append(";vert=");
    out.append(vert_align_name(props.vert_align));
    out.append(";rtl=");
    push_bool(&mut out, props.rtl);
    out.append(";cs=");
    push_bool(&mut out, props.cs);
    out.append(";lang=");
    push_opt_string(&mut out, &props.lang);
    out.append(";");
    out
}

fn sig_run_props(props: &RunProps, out: &mut String)
    ensures
        final(out)@ == sig_run_props_text(old(out)@, *props),
        tells_props(*props),
{
    let mut own: String = "style=".to_owned();
    push_opt_string(&mut own, &props.style);
    own.append(";font=");
    push_opt_string(&mut own, &props.font);
    let part: String = behind_font(props);
    own.append(part.as_str());
    push_opt_rgb(&mut own, props.color);
    let part: String = behind_color(props);
    own.append(part.as_str());
    push_opt_u32(&mut own, props.size_half_pt);
    let part: String = behind_size(props);
    own.append(part.as_str());
    out.append(own.as_str());
}

/// The debug notation of a paragraph's numbering.
pub open spec fn num_text(num: Option<(u32, u8)>) -> Seq<char> {
    show_opt(
        match num {
            Some((id, level)) => Some("("@ + dec(id as int) + ", "@ + dec(level as int) + ")"@),
            None => None,
        },
    )
}

fn push_num(out: &mut String, num: Option<(u32, u8)>)
    ensures
        final(out)@ == old(out)@ + num_text(num),
{
    match num {
        Some((id, level)) => {
            let mut t: String = "(".to_owned();
            push_i64(&mut t, id as i64);
            t.append(", ");
            push_i64(&mut t, level as i64);
            t.append(")");
            push_opt_text(out, Some(t.as_str()));
        }
        None => {
            push_opt_text(out, None);
        }
    }
}

/// The notation of an optional tab leader.
pub open spec fn leader_text(leader: Option<TabLeader>) -> Seq<char> {
    match leader {
        Some(l) => tab_leader_text(l),
        None => ""@,
    }
}

/// The notation of a tab stop.
pub open spec fn tab_text(tab: TabStop) -> Seq<char> {
    "tab="@ + tab_align_text(tab.val) + ",leader="@ + leader_text(tab.leader) + ",pos="@ + dec(tab.pos as int) + ";"@
}

/// The notation of a tab stop, behind `acc`.
pub open spec fn sig_tab_text(acc: Seq<char>, tab: TabStop) -> Seq<char> {
    acc + tab_text(tab)
}

fn sig_tab(tab: &TabStop, out: &mut String)
    ensures
        final(out)@ == sig_tab_text(old(out)@, *tab),
{
    let mut own: String = "tab=".to_owned();
    own.append(tab_align_name(tab.val));
    own.append(",leader=");
    match tab.leader {
        Some(l) => {
            own.append(tab_leader_name(l));
        }
        None => {
            own.append("");
        }
    }
    own.append(",pos=");
    push_i64(&mut own, tab.pos as i64);
    own.append(";");
    out.append(own.as_str());
}

/// The notation of tab stops, behind `acc`.
pub open spec fn sig_tabs_text(acc: Seq<char>, tabs: Seq<TabStop>) -> Seq<char>
    decreases tabs.len(),
{
    if tabs.len() == 0 {
        acc
    } else {
        sig_tab_text(sig_tabs_text(acc, tabs.drop_last()), tabs.last())
    }
}

fn sig_tabs(tabs: &Vec<TabStop>, out: &mut String)
    ensures
        final(out)@ == sig_tabs_text(old(out)@, tabs@),
{
    let mut i: usize = 0;
    while i < tabs.len()
        invariant
            i <= tabs.len(),
            out@ == sig_tabs_text(old(out)@, tabs@.take(i as int)),
        decreases tabs.len() - i,
    {
        assert(tabs@.take(i + 1).drop_last() =~= tabs@.take(i as int));
        sig_tab(&tabs[i], out);
        i = i + 1;
    }
    assert(tabs@.take(i as int) =~= tabs@);
}

/// The notation of paragraph spacing.
pub open spec fn spacing_text(spacing: crate::dom::Spacing) -> Seq<char> {
    "spacing="@ + show_opt_int(opt_i32(spacing.before)) + ","@ + show_opt_int(opt_i32(spacing.after)) + ","@ + show_opt_int(opt_i32(spacing.line)) + ","@ + show_bool(spacing.line_rule_auto) + ","@ + show_bool(spacing.line_rule_at_least) + ";"@
}

/// The notation of paragraph spacing, behind `acc`.
pub open spec fn sig_spacing_text(acc: Seq<char>, spacing: crate::dom::Spacing) -> Seq<char> {
    acc + spacing_text(spacing)
}

fn sig_spacing(spacing: &crate::dom::Spacing, out: &mut String)
    ensures
        final(out)@ == sig_spacing_text(old(out)@, *spacing),
{
    let mut own: String = "spacing=".to_owned();
    push_opt_i32(&mut own, spacing.before);
    own.append(",");
    push_opt_i32(&mut own, spacing.after);
    own.append(",");
    push_opt_i32(&mut own, spacing.line);
    own.append(",");
    push_bool(&mut own, spacing.line_rule_auto);
    own.append(",");
    push_bool(&mut own, spacing.line_rule_at_least);
    own.append(";");
    out.append(own.as_str());
}

/// The notation of an indent.
pub open spec fn indent_text(ind: crate::dom::Indent) -> Seq<char> {
    "ind="@ + show_opt_int(opt_i32(ind.left)) + ","@ + show_opt_int(opt_i32(ind.right)) + ","@ + show_opt_int(opt_i32(ind.first_line)) + ","@ + show_opt_int(opt_i32(ind.hanging)) + ";"@
}

/// The notation of an indent, behind `acc`.
pub open spec fn sig_indent_text(acc: Seq<char>, ind: crate::dom::Indent) -> Seq<char> {
    acc + indent_text(ind)
}

fn sig_indent(ind: &crate::dom::Indent, out: &mut String)
    ensures
        final(out)@ == sig_indent_text(old(out)@, *ind),
{
    let mut own: String = "ind=".to_owned();
    push_opt_i32(&mut own, ind.left);
    own.append(",");
    push_opt_i32(&mut own, ind.right);
    own.append(",");
    push_opt_i32(&mut own, ind.first_line);
    own.append(",");
    push_opt_i32(&mut own, ind.hanging);
    own.append(";");
    out.append(own.as_str());
}

/// The notation of the plain paragraph properties.
pub open spec fn para_flags_text(props: ParaProps) -> Seq<char> {
    "style="@ + show_opt_str(opt_str(props.style)) + ";keep_next="@ + show_bool(props.keep_next) + ";page_break_before="@ + show_bool(props.page_break_before) + ";keep_lines="@ + show_bool(props.keep_lines) + ";num="@ + num_text(props.num) + ";bidi="@ + show_bool(props.bidi) + ";jc="@ + jc_text(props.jc) + ";outline="@ + show_opt_int(opt_u8(props.outline_lvl)) + ";shd="@ + show_opt_rgb(props.shd_fill) + ";"@
}

/// The notation of the plain paragraph properties, behind `acc`.
pub open spec fn sig_para_flags_text(acc: Seq<char>, props: ParaProps) -> Seq<char> {
    acc + para_flags_text(props)
}

fn sig_para_flags(props: &ParaProps, out: &mut String)
    ensures
        final(out)@ == sig_para_flags_text(old(out)@, *props),
{
    let mut own: String = "style=".to_owned();
    push_opt_string(&mut own, &props.style);
    own.append(";keep_next=");
    push_bool(&mut own, props.keep_next);
    own.append(";page_break_before=");
    push_bool(&mut own, props.page_break_before);
    own.append(";keep_lines=");
    push_bool(&mut own, props.keep_lines);
    own.append(";num=");
    push_num(&mut own, props.num);
    own.append(";bidi=");
    push_bool(&mut own, props.bidi);
    own.append(";jc=");
    own.append(jc_name(props.jc));
    own.append(";outline=");
    push_opt_u8(&mut own, props.outline_lvl);
    own.append(";shd=");
    push_opt_rgb(&mut own, props.shd_fill);
    own.append(";");
    out.append(own.as_str());
}

/// The notation of paragraph properties, behind `acc`.
pub open spec fn sig_para_props_text(acc: Seq<char>, props: ParaProps) -> Seq<char> {
    let flags = sig_para_flags_text(acc, props);
    let spaced = match props.spacing {
        Some(s) => sig_spacing_text(flags, s),
        None => flags,
    };
    let indented = match props.ind {
        Some(i) => sig_indent_text(spaced, i),
        None => spaced,
    };
    sig_tabs_text(indented, props.tabs@)
}

fn sig_para_props(props: &ParaProps, out: &mut String)
    ensures
        final(out)@ == sig_para_props_text(old(out)@, *props),
{
    sig_para_flags(props, out);
    if let Some(spacing) = &props.spacing {
        sig_spacing(spacing, out);
    }
    if let Some(ind) = &props.ind {
        sig_indent(ind, out);
    }
    sig_tabs(&props.tabs, out);
}

/// The debug notation of a page-number format.
pub open spec fn pg_num_text(pg: Option<crate::dom::PgNumType>) -> Seq<char> {
    show_opt(
        match pg {
            Some(p) => Some(
                "("@ + debug_text(p.fmt@) + ", "@ + show_opt_int(opt_i64(p.start)) + ")"@,
            ),
            None => None,
        },
    )
}

fn push_pg_num(out: &mut String, pg: &Option<crate::dom::PgNumType>)
    ensures
        final(out)@ == old(out)@ + pg_num_text(*pg),
{
    match pg {
        Some(p) => {
            let mut t: String = "(".to_owned();
            let fmt: String = debug_str(p.fmt);
            t.append(fmt.as_str());
            t.append(", ");
            push_opt_i64(&mut t, p.start);
            t.append(")");
            push_opt_text(out, Some(t.as_str()));
        }
        None => {
            push_opt_text(out, None);
        }
    }
}

/// The notation of a section break.
pub open spec fn sect_text(sect: SectPr) -> Seq<char> {
    "sect("@ + dec(sect.page_w as int) + ","@ + dec(sect.page_h as int) + ","@ + show_bool(sect.landscape) + ","@ + dec(sect.margin_top as int) + ","@ + dec(sect.margin_bottom as int) + ","@ + dec(sect.margin_left as int) + ","@ + dec(sect.margin_right as int) + ","@ + dec(sect.header as int) + ","@ + dec(sect.footer as int) + ","@ + dec(sect.columns as int) + ","@ + dec(sect.gutter as int) + ","@ + dec(sect.col_space as int) + ","@ + show_bool(sect.title_pg) + ","@ + pg_num_text(sect.pg_num) + ")"@
}

/// The notation of a section break, behind `acc`.
pub open spec fn sig_sect_text(acc: Seq<char>, sect: SectPr) -> Seq<char> {
    acc + sect_text(sect)
}

fn sig_sect(sect: &SectPr, out: &mut String)
    ensures
        final(out)@ == sig_sect_text(old(out)@, *sect),
{
    let mut own: String = "sect(".to_owned();
    push_i64(&mut own, sect.page_w as i64);
    own.append(",");
    push_i64(&mut own, sect.page_h as i64);
    own.append(",");
    push_bool(&mut own, sect.landscape);
    own.append(",");
    push_i64(&mut own, sect.margin_top as i64);
    own.append(",");
    push_i64(&mut own, sect.margin_bottom as i64);
    own.append(",");
    push_i64(&mut own, sect.margin_left as i64);
    own.append(",");
    push_i64(&mut own, sect.margin_right as i64);
    own.append(",");
    push_i64(&mut own, sect.header as i64);
    own.append(",");
    push_i64(&mut own, sect.footer as i64);
    own.append(",");
    push_i64(&mut own, sect.columns as i64);
    own.append(",");
    push_i64(&mut own, sect.gutter as i64);
    own.append(",");
    push_i64(&mut own, sect.col_space as i64);
    own.append(",");
    push_bool(&mut own, sect.title_pg);
    own.append(",");
    push_pg_num(&mut own, &sect.pg_num);
    own.append(")");
    out.append(own.as_str());
}

/// A literal, or nothing.
pub open spec fn lit_or_empty(v: Option<&str>) -> Seq<char> {
    match v {
        Some(s) => s@,
        None => ""@,
    }
}

fn push_lit(out: &mut String, v: Option<&str>)
    ensures
        final(out)@ == old(out)@ + lit_or_empty(v),
{
    match v {
        Some(s) => {
            out.append(s);
        }
        None => {
            out.append("");
        }
    }
}

fn push_dist(out: &mut String, v: [i64; 4])
    ensures
        final(out)@ == old(out)@ + show_ints(v@.map_values(|n: i64| n as int)),
{
    let ints: Vec<i64> = vec![v[0], v[1], v[2], v[3]];
    push_ints(out, &ints);
    assert(ints@.map_values(|n: i64| n as int) =~= v@.map_values(|n: i64| n as int));
}

/// The notation of an anchor, behind `acc`.
pub open spec fn sig_anchor_text(acc: Seq<char>, anchor: Anchor) -> Seq<char> {
    acc + "h="@ + anchor.pos_h.rel_from@ + ":"@ + lit_or_empty(anchor.pos_h.align) + ":"@ + show_opt_int(opt_i64(anchor.pos_h.offset)) + ",v="@ + anchor.pos_v.rel_from@ + ":"@ + lit_or_empty(anchor.pos_v.align) + ":"@ + show_opt_int(opt_i64(anchor.pos_v.offset)) + ",wrap="@ + anchor_wrap_text(anchor.wrap) + ",dist="@ + show_ints(anchor.dist@.map_values(|n: i64| n as int)) + ",behind="@ + show_bool(anchor.behind)
}

fn sig_anchor(anchor: &Anchor, out: &mut String)
    ensures
        final(out)@ == sig_anchor_text(old(out)@, *anchor),
{
    out.append("h=");
    out.append(anchor.pos_h.rel_from);
    out.append(":");
    push_lit(out, anchor.pos_h.align);
    out.append(":");
    push_opt_i64(out, anchor.pos_h.offset);
    out.append(",v=");
    out.append(anchor.pos_v.rel_from);
    out.append(":");
    push_lit(out, anchor.pos_v.align);
    out.append(":");
    push_opt_i64(out, anchor.pos_v.offset);
    out.append(",wrap=");
    out.append(anchor_wrap_name(anchor.wrap));
    out.append(",dist=");
    push_dist(out, anchor.dist);
    out.append(",behind=");
    push_bool(out, anchor.behind);
}

/// The notation of an anchor.
pub fn anchor_signature(anchor: &Anchor) -> (r: String)
    ensures
        r@ == sig_anchor_text(Seq::empty(), *anchor),
{
    let mut out: String = String::new();
    sig_anchor(anchor, &mut out);
    out
}

// ---------------------------------------------------------------------------
// Shapes.
// ---------------------------------------------------------------------------

/// The debug notation of the channels of a color.
pub open spec fn rgba_text(c: [u8; 4]) -> Seq<char> {
    show_ints(c@.map_values(|b: u8| b as int))
}

fn push_rgba(out: &mut String, c: [u8; 4])
    ensures
        final(out)@ == old(out)@ + rgba_text(c),
{
    let ints: Vec<i64> = vec![c[0] as i64, c[1] as i64, c[2] as i64, c[3] as i64];
    push_ints(out, &ints);
    assert(ints@.map_values(|n: i64| n as int) =~= c@.map_values(|b: u8| b as int));
}

/// The debug notation of a pair of integers.
pub open spec fn pair_text(p: [i32; 2]) -> Seq<char> {
    show_ints(p@.map_values(|n: i32| n as int))
}

fn push_pair(out: &mut String, p: [i32; 2])
    ensures
        final(out)@ == old(out)@ + pair_text(p),
{
    let ints: Vec<i64> = vec![p[0] as i64, p[1] as i64];
    push_ints(out, &ints);
    assert(ints@.map_values(|n: i64| n as int) =~= p@.map_values(|n: i32| n as int));
}

/// The debug notation of one gradient stop.
pub open spec fn stop_text(stop: GradientStop) -> Seq<char> {
    "("@ + dec(stop.pos_100k as int) + ", "@ + rgba_text(stop.color) + ")"@
}

/// The debug notation of gradient stops.
pub open spec fn stops_text(stops: Seq<GradientStop>) -> Seq<char> {
    show_list(stops.map_values(|s: GradientStop| stop_text(s)))
}

fn push_stop(out: &mut String, stop: &GradientStop)
    ensures
        final(out)@ == old(out)@ + stop_text(*stop),
{
    let mut t: String = "(".to_owned();
    push_i64(&mut t, stop.pos_100k as i64);
    t.append(", ");
    push_rgba(&mut t, stop.color);
    t.append(")");
    out.append(t.as_str());
}

fn push_stops(out: &mut String, stops: &Vec<GradientStop>)
    ensures
        final(out)@ == old(out)@ + stops_text(stops@),
{
    let ghost items = stops@.map_values(|s: GradientStop| stop_text(s));
    out.append("[");
    let ghost start = out@;
    let mut i: usize = 0;
    assert(items.take(0) =~= Seq::<Seq<char>>::empty());
    assert(out@ =~= start + comma_list(items.take(0)));
    while i < stops.len()
        invariant
            i <= stops.len(),
            items == stops@.map_values(|s: GradientStop| stop_text(s)),
            out@ == start + comma_list(items.take(i as int)),
        decreases stops.len() - i,
    {
        if i > 0 {
            out.append(", ");
        }
        push_stop(out, &stops[i]);
        proof {
            if i > 0 {
                lemma_comma_step(items, i as int);
                assert(out@ =~= start + comma_list(items.take(i + 1)));
            } else {
                assert(items.take(1)[0] == items[0]);
                assert(out@ =~= start + comma_list(items.take(1)));
            }
        }
        i = i + 1;
    }
    assert(items.take(i as int) =~= items);
    out.append("]");
    assert(out@ =~= old(out)@ + stops_text(stops@));
}

/// The notation of a tile image.
pub open spec fn tile_image_text(image: TileImage) -> Seq<char> {
    match image {
        TileImage::Media(id) => "media:"@ + dec(id as int),
        TileImage::Rel(rid) => "rel:"@ + rid@,
    }
}

/// The notation of a fill.
pub open spec fn fill_text(fill: Option<ShapeFill>) -> Seq<char> {
    match fill {
        Some(ShapeFill::Solid(rgba)) => "solid="@ + rgba_text(rgba),
        Some(ShapeFill::LinearGradient { angle_60k, stops }) => "linear="@ + dec(angle_60k as int)
            + ":"@ + stops_text(stops@),
        Some(
            ShapeFill::RadialGradient {
                stops,
                center_100k,
                radius_100k,
                focal_center_100k,
                focal_radius_100k,
            },
        ) => "radial="@ + pair_text(center_100k) + ":"@ + dec(radius_100k as int) + ":"@
            + pair_text(focal_center_100k) + ":"@ + dec(focal_radius_100k as int) + ":"@
            + stops_text(stops@),
        Some(ShapeFill::Tile { image, tx_emu, ty_emu, sx_100k, sy_100k, algn }) => "tile="@
            + tile_image_text(image) + ":"@ + dec(tx_emu as int) + ":"@ + dec(ty_emu as int)
            + ":"@ + dec(sx_100k as int) + ":"@ + dec(sy_100k as int) + ":"@ + algn@,
        None => Seq::empty(),
    }
}

/// The notation of a fill.
pub fn fill_signature(fill: &Option<ShapeFill>) -> (r: String)
    ensures
        r@ == fill_text(*fill),
{
    match fill {
        Some(ShapeFill::Solid(rgba)) => {
            let mut out: String = "solid=".to_owned();
            push_rgba(&mut out, *rgba);
            out
        },
        Some(ShapeFill::LinearGradient { angle_60k, stops }) => {
            let mut out: String = "linear=".to_owned();
            push_i64(&mut out, *angle_60k as i64);
            out.append(":");
            push_stops(&mut out, stops);
            out
        },
        Some(
            ShapeFill::RadialGradient {
                stops,
                center_100k,
                radius_100k,
                focal_center_100k,
                focal_radius_100k,
            },
        ) => {
            let mut out: String = "radial=".to_owned();
            push_pair(&mut out, *center_100k);
            out.append(":");
            push_i64(&mut out, *radius_100k as i64);
            out.append(":");
            push_pair(&mut out, *focal_center_100k);
            out.append(":");
            push_i64(&mut out, *focal_radius_100k as i64);
            out.append(":");
            push_stops(&mut out, stops);
            out
        },
        Some(ShapeFill::Tile { image, tx_emu, ty_emu, sx_100k, sy_100k, algn }) => {
            let mut tile: String = String::new();
            match image {
                TileImage::Media(id) => {
                    tile.append("media:");
                    push_i64(&mut tile, *id as i64);
                    assert(tile@ =~= tile_image_text(*image));
                }
                TileImage::Rel(rid) => {
                    tile.append("rel:");
                    tile.append(rid.as_str());
                    assert(tile@ =~= tile_image_text(*image));
                }
            }
            let mut out: String = "tile=".to_owned();
            out.append(tile.as_str());
            out.append(":");
            push_i64(&mut out, *tx_emu);
            out.append(":");
            push_i64(&mut out, *ty_emu);
            out.append(":");
            push_i64(&mut out, *sx_100k as i64);
            out.append(":");
            push_i64(&mut out, *sy_100k as i64);
            out.append(":");
            out.append(algn);
            out
        },
        None => String::new(),
    }
}

/// The notation of an outline.
pub open spec fn stroke_text(stroke: Option<ShapeStroke>) -> Seq<char> {
    match stroke {
        Some(s) => rgba_text(s.color) + ":"@ + dec(s.w_emu as int) + ":"@ + s.cap@ + ":"@
            + show_opt_str(opt_lit(s.dash)),
        None => Seq::empty(),
    }
}

/// The notation of an outline.
pub fn stroke_signature(stroke: &Option<ShapeStroke>) -> (r: String)
    ensures
        r@ == stroke_text(*stroke),
{
    match stroke {
        Some(s) => {
            let mut out: String = String::new();
            push_rgba(&mut out, s.color);
            assert(out@ =~= rgba_text(s.color));
            out.append(":");
            push_i64(&mut out, s.w_emu);
            out.append(":");
            out.append(s.cap);
            out.append(":");
            push_opt_lit(&mut out, s.dash);
            out
        },
        None => String::new(),
    }
}

/// The notation of a path segment, behind `acc`.
pub open spec fn segment_text(acc: Seq<char>, segment: PathSegment) -> Seq<char> {
    match segment {
        PathSegment::MoveTo(x, y) => acc + "M"@ + dec(x as int) + ","@ + dec(y as int) + ";"@,
        PathSegment::LineTo(x, y) => acc + "L"@ + dec(x as int) + ","@ + dec(y as int) + ";"@,
        PathSegment::CubicTo(x1, y1, x2, y2, x, y) => acc + "C"@ + dec(x1 as int) + ","@ + dec(
            y1 as int,
        ) + ","@ + dec(x2 as int) + ","@ + dec(y2 as int) + ","@ + dec(x as int) + ","@ + dec(
            y as int,
        ) + ";"@,
        PathSegment::Close => acc + "Z;"@,
    }
}

/// The notation of path segments, behind `acc`.
pub open spec fn segments_text(acc: Seq<char>, segments: Seq<PathSegment>) -> Seq<char>
    decreases segments.len(),
{
    if segments.len() == 0 {
        acc
    } else {
        segment_text(segments_text(acc, segments.drop_last()), segments.last())
    }
}

fn push_segment(out: &mut String, segment: PathSegment)
    ensures
        final(out)@ == segment_text(old(out)@, segment),
{
    match segment {
        PathSegment::MoveTo(x, y) => {
            out.append("M");
            push_i64(out, x);
            out.append(",");
            push_i64(out, y);
            out.append(";");
        }
        PathSegment::LineTo(x, y) => {
            out.append("L");
            push_i64(out, x);
            out.append(",");
            push_i64(out, y);
            out.append(";");
        }
        PathSegment::CubicTo(x1, y1, x2, y2, x, y) => {
            out.append("C");
            push_i64(out, x1);
            out.append(",");
            push_i64(out, y1);
            out.append(",");
            push_i64(out, x2);
            out.append(",");
            push_i64(out, y2);
            out.append(",");
            push_i64(out, x);
            out.append(",");
            push_i64(out, y);
            out.append(";");
        }
        PathSegment::Close => {
            out.append("Z;");
        }
    }
}

/// The notation of a geometry.
pub open spec fn geom_text(geom: ShapeGeom) -> Seq<char> {
    match geom {
        ShapeGeom::Rect => "rect"@,
        ShapeGeom::RoundRect { adj_100k } => "roundrect:"@ + dec(adj_100k as int),
        ShapeGeom::Ellipse => "ellipse"@,
        ShapeGeom::Path(segments) => segments_text("path:"@, segments@),
    }
}

/// The notation of a geometry.
pub fn shape_geom_name(geom: &ShapeGeom) -> (r: String)
    ensures
        r@ == geom_text(*geom),
{
    match geom {
        ShapeGeom::Rect => "rect".to_owned(),
        ShapeGeom::RoundRect { adj_100k } => {
            let mut out: String = "roundrect:".to_owned();
            push_i64(&mut out, *adj_100k as i64);
            out
        },
        ShapeGeom::Ellipse => "ellipse".to_owned(),
        ShapeGeom::Path(segments) => {
            let mut out: String = "path:".to_owned();
            let mut i: usize = 0;
            while i < segments.len()
                invariant
                    i <= segments.len(),
                    out@ == segments_text("path:"@, segments@.take(i as int)),
                decreases segments.len() - i,
            {
                assert(segments@.take(i + 1).drop_last() =~= segments@.take(i as int));
                push_segment(&mut out, segments[i]);
                i = i + 1;
            }
            assert(segments@.take(i as int) =~= segments@);
            out
        },
    }
}

// ---------------------------------------------------------------------------
// Blocks.
// ---------------------------------------------------------------------------

/// The notation of blocks, behind `acc`.
pub open spec fn sig_blocks_text(acc: Seq<char>, s: Seq<Block>) -> Seq<char>
    decreases s, 0nat,
{
    if s.len() == 0 {
        acc
    } else {
        sig_block_text(sig_blocks_text(acc, s.drop_last()), s.last())
    }
}

fn sig_blocks(s: &Vec<Block>, out: &mut String)
    ensures
        final(out)@ == sig_blocks_text(old(out)@, s@),
        tells_blocks(s@),
    decreases s@, 0nat,
{
    let mut i: usize = 0;
    while i < s.len()
        invariant
            i <= s.len(),
            out@ == sig_blocks_text(old(out)@, s@.take(i as int)),
            forall|k: int| 0 <= k < i ==> tells_block(#[trigger] s@[k]),
        decreases s.len() - i,
    {
        assert(s@.take(i + 1).drop_last() =~= s@.take(i as int));
        proof {
            assert(decreases_to!(s@ => s@[i as int]));
        }
        sig_block(&s[i], out);
        i = i + 1;
    }
    assert(s@.take(i as int) =~= s@);
}

/// The debug notation of a row height.
pub open spec fn row_height_text(h: Option<crate::dom::RowHeight>) -> Seq<char> {
    show_opt(
        match h {
            Some(h) => Some("("@ + dec(h.val as int) + ", "@ + show_bool(h.exact) + ")"@),
            None => None,
        },
    )
}

fn push_row_height(out: &mut String, h: Option<crate::dom::RowHeight>)
    ensures
        final(out)@ == old(out)@ + row_height_text(h),
{
    match h {
        Some(h) => {
            let mut t: String = "(".to_owned();
            push_i64(&mut t, h.val as i64);
            t.append(", ");
            push_bool(&mut t, h.exact);
            t.append(")");
            push_opt_text(out, Some(t.as_str()));
        }
        None => {
            push_opt_text(out, None);
        }
    }
}

fn push_grid(out: &mut String, grid: &Vec<i32>)
    ensures
        final(out)@ == old(out)@ + show_ints(grid@.map_values(|n: i32| n as int)),
{
    let mut ints: Vec<i64> = Vec::new();
    let mut i: usize = 0;
    while i < grid.len()
        invariant
            i <= grid.len(),
            ints@.len() == i,
            forall|k: int| 0 <= k < i ==> ints@[k] == grid@[k],
        decreases grid.len() - i,
    {
        ints.push(grid[i] as i64);
        i = i + 1;
    }
    push_ints(out, &ints);
    assert(ints@.map_values(|n: i64| n as int) =~= grid@.map_values(|n: i32| n as int));
}

/// The notation of a table up to its rows.
pub open spec fn table_head_text(table: Tbl) -> Seq<char> {
    "tbl(w="@ + show_opt_int(opt_i32(table.props.width_dxa)) + ",style="@ + show_opt_str(
        opt_str(table.props.style),
    ) + ",grid="@ + show_ints(table.grid@.map_values(|n: i32| n as int))
}

fn table_head(table: &Tbl) -> (r: String)
    ensures
        r@ == table_head_text(*table),
{
    let mut out: String = "tbl(w=".to_owned();
    push_opt_i32(&mut out, table.props.width_dxa);
    out.append(",style=");
    push_opt_string(&mut out, &table.props.style);
    out.append(",grid=");
    push_grid(&mut out, &table.grid);
    out
}

/// The notation of a table of contents up to its entries.
pub open spec fn toc_head_text(toc: Toc) -> Seq<char> {
    "toc(instr="@ + toc.instr@ + ",mode="@ + field_mode_text(toc.mode) + ",depth="@
        + show_opt_int(opt_usize(toc.depth)) + ",cat="@ + show_opt_str(
        opt_str(toc.caption_category),
    ) + ",tab="@ + dec(toc.tab_pos as int) + ")"@
}

fn toc_head(toc: &Toc) -> (r: String)
    ensures
        r@ == toc_head_text(*toc),
{
    let mut out: String = "toc(instr=".to_owned();
    out.append(toc.instr.as_str());
    out.append(",mode=");
    out.append(field_mode_name(toc.mode));
    out.append(",depth=");
    push_opt_usize(&mut out, toc.depth);
    out.append(",cat=");
    push_opt_string(&mut out, &toc.caption_category);
    out.append(",tab=");
    push_i64(&mut out, toc.tab_pos as i64);
    out.append(")");
    out
}

/// The notation of one block, behind `acc`. A tag has none.
pub open spec fn sig_block_text(acc: Seq<char>, block: Block) -> Seq<char>
    decreases block, 0nat,
{
    match block {
        Block::WeakPageBreak => acc + "weakbr;"@,
        Block::Para(para) => sig_para_text(acc, para),
        Block::Table(table) => sig_rows_text(acc + table_head_text(table), table.rows@) + ")"@,
        Block::FlowSpace { dxa } => acc + ("space("@ + dec(dxa as int) + ")"@),
        Block::Toc(toc) => sig_runs_text(
            sig_paras_text(acc + toc_head_text(toc), toc.entries@),
            toc.fallback@,
        ),
        Block::SectionBreak(sect) => sig_sect_text(acc, sect),
        Block::Tag(_) => acc,
    }
}

/// Appends the notation of one block.
pub fn sig_block(block: &Block, out: &mut String)
    ensures
        final(out)@ == sig_block_text(old(out)@, *block),
        tells_block(*block),
    decreases *block, 0nat,
{
    match block {
        Block::WeakPageBreak => {
            out.append("weakbr;");
        }
        Block::Para(para) => {
            sig_para(para, out);
        }
        Block::Table(table) => {
            let head: String = table_head(table);
            out.append(head.as_str());
            sig_rows(&table.rows, out);
            out.append(")");
        }
        Block::FlowSpace { dxa } => {
            let mut own: String = "space(".to_owned();
            push_i64(&mut own, *dxa as i64);
            own.append(")");
            out.append(own.as_str());
        }
        Block::Toc(toc) => {
            let head: String = toc_head(toc);
            out.append(head.as_str());
            sig_paras(&toc.entries, out);
            sig_runs(&toc.fallback, out);
        }
        Block::SectionBreak(sect) => {
            sig_sect(sect, out);
        }
        Block::Tag(_) => {}
    }
}

/// The notation of rows, behind `acc`.
pub open spec fn sig_rows_text(acc: Seq<char>, s: Seq<Row>) -> Seq<char>
    decreases s, 0nat,
{
    if s.len() == 0 {
        acc
    } else {
        sig_row_text(sig_rows_text(acc, s.drop_last()), s.last())
    }
}

fn sig_rows(s: &Vec<Row>, out: &mut String)
    ensures
        final(out)@ == sig_rows_text(old(out)@, s@),
        tells_rows(s@),
    decreases s@, 0nat,
{
    let mut i: usize = 0;
    while i < s.len()
        invariant
            i <= s.len(),
            out@ == sig_rows_text(old(out)@, s@.take(i as int)),
            forall|k: int| 0 <= k < i ==> tells_row(#[trigger] s@[k]),
        decreases s.len() - i,
    {
        assert(s@.take(i + 1).drop_last() =~= s@.take(i as int));
        proof {
            assert(decreases_to!(s@ => s@[i as int]));
        }
        sig_row(&s[i], out);
        i = i + 1;
    }
    assert(s@.take(i as int) =~= s@);
}

/// The notation of a row up to its cells.
pub open spec fn row_head_text(row: Row) -> Seq<char> {
    "row(h="@ + show_bool(row.header) + ",cs="@ + show_bool(row.cant_split) + ",rh="@
        + row_height_text(row.height)
}

/// The notation of one row, behind `acc`.
pub open spec fn sig_row_text(acc: Seq<char>, row: Row) -> Seq<char>
    decreases row, 0nat,
{
    sig_cells_text(acc + row_head_text(row), row.cells@) + ")"@
}

fn sig_row(row: &Row, out: &mut String)
    ensures
        final(out)@ == sig_row_text(old(out)@, *row),
        tells_row(*row),
    decreases *row, 0nat,
{
    let mut head: String = "row(h=".to_owned();
    push_bool(&mut head, row.header);
    head.append(",cs=");
    push_bool(&mut head, row.cant_split);
    head.append(",rh=");
    push_row_height(&mut head, row.height);
    out.append(head.as_str());
    sig_cells(&row.cells, out);
    out.append(")");
}

/// The notation of cells, behind `acc`.
pub open spec fn sig_cells_text(acc: Seq<char>, s: Seq<Cell>) -> Seq<char>
    decreases s, 0nat,
{
    if s.len() == 0 {
        acc
    } else {
        sig_cell_text(sig_cells_text(acc, s.drop_last()), s.last())
    }
}

fn sig_cells(s: &Vec<Cell>, out: &mut String)
    ensures
        final(out)@ == sig_cells_text(old(out)@, s@),
        tells_cells(s@),
    decreases s@, 0nat,
{
    let mut i: usize = 0;
    while i < s.len()
        invariant
            i <= s.len(),
            out@ == sig_cells_text(old(out)@, s@.take(i as int)),
            forall|k: int| 0 <= k < i ==> tells_cell(#[trigger] s@[k]),
        decreases s.len() - i,
    {
        assert(s@.take(i + 1).drop_last() =~= s@.take(i as int));
        proof {
            assert(decreases_to!(s@ => s@[i as int]));
        }
        sig_cell(&s[i], out);
        i = i + 1;
    }
    assert(s@.take(i as int) =~= s@);
}

/// The notation of a cell up to its blocks.
pub open spec fn cell_head_text(cell: Cell) -> Seq<char> {
    "cell(w="@ + show_opt_int(opt_i32(cell.w_dxa)) + ",span="@ + dec(cell.grid_span as int)
        + ",merge="@ + vmerge_text(cell.v_merge) + ",shd="@ + show_opt_rgb(cell.shd_fill)
        + ",valign="@ + valign_text(cell.valign)
}

/// The notation of one cell, behind `acc`.
pub open spec fn sig_cell_text(acc: Seq<char>, cell: Cell) -> Seq<char>
    decreases cell, 0nat,
{
    sig_blocks_text(acc + cell_head_text(cell), cell.blocks@) + ")"@
}

fn sig_cell(cell: &Cell, out: &mut String)
    ensures
        final(out)@ == sig_cell_text(old(out)@, *cell),
        tells_cell(*cell),
    decreases *cell, 0nat,
{
    let mut head: String = "cell(w=".to_owned();
    push_opt_i32(&mut head, cell.w_dxa);
    head.append(",span=");
    push_i64(&mut head, cell.grid_span as i64);
    head.append(",merge=");
    head.append(vmerge_name(cell.v_merge));
    head.append(",shd=");
    push_opt_rgb(&mut head, cell.shd_fill);
    head.append(",valign=");
    head.append(valign_name(cell.valign));
    out.append(head.as_str());
    sig_blocks(&cell.blocks, out);
    out.append(")");
}

/// The notation of paragraphs, behind `acc`.
pub open spec fn sig_paras_text(acc: Seq<char>, s: Seq<Para>) -> Seq<char>
    decreases s, 0nat,
{
    if s.len() == 0 {
        acc
    } else {
        sig_para_text(sig_paras_text(acc, s.drop_last()), s.last())
    }
}

fn sig_paras(s: &Vec<Para>, out: &mut String)
    ensures
        final(out)@ == sig_paras_text(old(out)@, s@),
        tells_paras(s@),
    decreases s@, 0nat,
{
    let mut i: usize = 0;
    while i < s.len()
        invariant
            i <= s.len(),
            out@ == sig_paras_text(old(out)@, s@.take(i as int)),
            forall|k: int| 0 <= k < i ==> tells_para(#[trigger] s@[k]),
        decreases s.len() - i,
    {
        assert(s@.take(i + 1).drop_last() =~= s@.take(i as int));
        proof {
            assert(decreases_to!(s@ => s@[i as int]));
        }
        sig_para(&s[i], out);
        i = i + 1;
    }
    assert(s@.take(i as int) =~= s@);
}

/// The notation of one paragraph, behind `acc`.
pub open spec fn sig_para_text(acc: Seq<char>, para: Para) -> Seq<char>
    decreases para, 0nat,
{
    sig_children_text(sig_para_props_text(acc + "p("@, para.props), para.content@) + ")"@
}

/// Appends the notation of one paragraph.
pub fn sig_para(para: &Para, out: &mut String)
    ensures
        final(out)@ == sig_para_text(old(out)@, *para),
        tells_para(*para),
    decreases *para, 0nat,
{
    out.append("p(");
    sig_para_props(&para.props, out);
    sig_children(&para.content, out);
    out.append(")");
}

/// The notation of paragraph content, behind `acc`.
pub open spec fn sig_children_text(acc: Seq<char>, s: Seq<ParaChild>) -> Seq<char>
    decreases s, 0nat,
{
    if s.len() == 0 {
        acc
    } else {
        sig_child_text(sig_children_text(acc, s.drop_last()), s.last())
    }
}

fn sig_children(s: &Vec<ParaChild>, out: &mut String)
    ensures
        final(out)@ == sig_children_text(old(out)@, s@),
        tells_children(s@),
    decreases s@, 0nat,
{
    let mut i: usize = 0;
    while i < s.len()
        invariant
            i <= s.len(),
            out@ == sig_children_text(old(out)@, s@.take(i as int)),
            forall|k: int| 0 <= k < i ==> tells_child(#[trigger] s@[k]),
        decreases s.len() - i,
    {
        assert(s@.take(i + 1).drop_last() =~= s@.take(i as int));
        proof {
            assert(decreases_to!(s@ => s@[i as int]));
        }
        sig_para_child(&s[i], out);
        i = i + 1;
    }
    assert(s@.take(i as int) =~= s@);
}

/// The notation of one paragraph child, behind `acc`. Bookmarks, comment ranges
/// and tags have none.
pub open spec fn sig_child_text(acc: Seq<char>, child: ParaChild) -> Seq<char>
    decreases child, 0nat,
{
    match child {
        ParaChild::Run(run) => sig_run_text(acc, run),
        ParaChild::OmmlPara(xml) => acc + "ommlp("@ + xml@ + ")"@,
        ParaChild::Hyperlink { anchor, runs, .. } => sig_runs_text(
            acc + "link("@ + show_opt_str(opt_str(anchor)),
            runs@,
        ) + ")"@,
        _ => acc,
    }
}

fn sig_para_child(child: &ParaChild, out: &mut String)
    ensures
        final(out)@ == sig_child_text(old(out)@, *child),
        tells_child(*child),
    decreases *child, 0nat,
{
    match child {
        ParaChild::Run(run) => {
            sig_run(run, out);
        }
        ParaChild::OmmlPara(xml) => {
            out.append("ommlp(");
            out.append(xml.as_str());
            out.append(")");
        }
        ParaChild::Hyperlink { anchor, runs, .. } => {
            out.append("link(");
            push_opt_string(out, anchor);
            sig_runs(runs, out);
            out.append(")");
        }
        _ => {}
    }
}

/// The notation of runs, behind `acc`.
pub open spec fn sig_runs_text(acc: Seq<char>, s: Seq<Run>) -> Seq<char>
    decreases s, 0nat,
{
    if s.len() == 0 {
        acc
    } else {
        sig_run_text(sig_runs_text(acc, s.drop_last()), s.last())
    }
}

fn sig_runs(s: &Vec<Run>, out: &mut String)
    ensures
        final(out)@ == sig_runs_text(old(out)@, s@),
        tells_runs(s@),
    decreases s@, 0nat,
{
    let mut i: usize = 0;
    while i < s.len()
        invariant
            i <= s.len(),
            out@ == sig_runs_text(old(out)@, s@.take(i as int)),
            forall|k: int| 0 <= k < i ==> tells_run(#[trigger] s@[k]),
        decreases s.len() - i,
    {
        assert(s@.take(i + 1).drop_last() =~= s@.take(i as int));
        proof {
            assert(decreases_to!(s@ => s@[i as int]));
        }
        sig_run(&s[i], out);
        i = i + 1;
    }
    assert(s@.take(i as int) =~= s@);
}

/// The notation of the cached result of a live field, behind `acc`.
pub open spec fn sig_live_runs_text(acc: Seq<char>, s: Seq<Run>) -> Seq<char>
    decreases s, 0nat,
{
    if s.len() == 0 {
        acc
    } else {
        sig_live_text(sig_live_runs_text(acc, s.drop_last()), s.last())
    }
}

fn sig_live_runs(s: &Vec<Run>, out: &mut String)
    ensures
        final(out)@ == sig_live_runs_text(old(out)@, s@),
        tells_runs(s@),
    decreases s@, 0nat,
{
    let mut i: usize = 0;
    while i < s.len()
        invariant
            i <= s.len(),
            out@ == sig_live_runs_text(old(out)@, s@.take(i as int)),
            forall|k: int| 0 <= k < i ==> tells_run(#[trigger] s@[k]),
        decreases s.len() - i,
    {
        assert(s@.take(i + 1).drop_last() =~= s@.take(i as int));
        proof {
            assert(decreases_to!(s@ => s@[i as int]));
        }
        sig_live_field_result(&s[i], out);
        i = i + 1;
    }
    assert(s@.take(i as int) =~= s@);
}

/// The notation of a field up to its result.
pub open spec fn field_head_text(field: Field) -> Seq<char> {
    "field("@ + field.instr@ + ",mode="@ + field_mode_text(field.mode) + ",display="@
        + field_display_text(field.display)
}

/// The notation of one run, behind `acc`.
pub open spec fn sig_run_text(acc: Seq<char>, run: Run) -> Seq<char>
    decreases run, 0nat,
{
    match run {
        Run::Text { props, text } => sig_run_props_text(acc + "r("@, props) + "text="@ + text@
            + ")"@,
        Run::Break { kind: BreakKind::Authored } => acc + "br;"@,
        Run::Break { kind: BreakKind::Structure } => acc + "sbr;"@,
        Run::PageBreak => acc + "pagebr;"@,
        Run::ColumnBreak => acc + "colbr;"@,
        Run::Tab => acc + "tab;"@,
        Run::FillTab => acc + "filltab;"@,
        Run::FootnoteRef { props, id, .. } => sig_run_props_text(acc + "fnref("@, props) + dec(
            id as int,
        ) + ")"@,
        Run::FootnoteRefMark => acc + "fnmark;"@,
        Run::CommentReference { props, id } => sig_run_props_text(acc + "cref("@, props) + dec(
            id as int,
        ) + ")"@,
        Run::Drawing(drawing) => sig_drawing_text(acc, drawing),
        Run::OmmlInline(xml) => acc + "ommli("@ + xml@ + ")"@,
        Run::Field(field) => {
            let head = acc + field_head_text(field);
            (if field.mode == FieldMode::Live {
                sig_live_runs_text(head, field.result@)
            } else {
                sig_runs_text(head, field.result@)
            }) + ")"@
        },
    }
}

/// Appends the notation of one run.
pub fn sig_run(run: &Run, out: &mut String)
    ensures
        final(out)@ == sig_run_text(old(out)@, *run),
        tells_run(*run),
    decreases *run, 0nat,
{
    match run {
        Run::Text { props, text } => {
            out.append("r(");
            sig_run_props(props, out);
            out.append("text=");
            out.append(text.as_str());
            out.append(")");
        }
        Run::Break { kind } => match kind {
            BreakKind::Authored => {
                out.append("br;");
            }
            BreakKind::Structure => {
                out.append("sbr;");
            }
        },
        Run::PageBreak => {
            out.append("pagebr;");
        }
        Run::ColumnBreak => {
            out.append("colbr;");
        }
        Run::Tab => {
            out.append("tab;");
        }
        Run::FillTab => {
            out.append("filltab;");
        }
        Run::FootnoteRef { props, id, .. } => {
            out.append("fnref(");
            sig_run_props(props, out);
            push_i64(out, *id as i64);
            out.append(")");
        }
        Run::FootnoteRefMark => {
            out.append("fnmark;");
        }
        Run::CommentReference { props, id } => {
            out.append("cref(");
            sig_run_props(props, out);
            push_i64(out, *id as i64);
            out.append(")");
        }
        Run::Drawing(drawing) => {
            sig_drawing(drawing, out);
        }
        Run::OmmlInline(xml) => {
            out.append("ommli(");
            out.append(xml.as_str());
            out.append(")");
        }
        Run::Field(field) => {
            let mut head: String = "field(".to_owned();
            head.append(field.instr.as_str());
            head.append(",mode=");
            head.append(field_mode_name(field.mode));
            head.append(",display=");
            head.append(field_display_name(field.display));
            out.append(head.as_str());
            if field.mode == FieldMode::Live {
                sig_live_runs(&field.result, out);
            } else {
                sig_runs(&field.result, out);
            }
            out.append(")");
        }
    }
}

/// The notation of one run of a live field's cached result, behind `acc`: its
/// formatting without its text.
pub open spec fn sig_live_text(acc: Seq<char>, run: Run) -> Seq<char>
    decreases run, 1nat,
{
    match run {
        Run::Text { props, .. } => sig_run_props_text(acc + "r("@, props) + "text=*)"@,
        _ => sig_run_text(acc, run),
    }
}

fn sig_live_field_result(run: &Run, out: &mut String)
    ensures
        final(out)@ == sig_live_text(old(out)@, *run),
        tells_run(*run),
    decreases *run, 1nat,
{
    match run {
        Run::Text { props, .. } => {
            out.append("r(");
            sig_run_props(props, out);
            out.append("text=*)");
        }
        _ => {
            sig_run(run, out);
        }
    }
}

/// The notation of an optional anchor.
pub open spec fn opt_anchor_text(anchor: Option<Anchor>) -> Seq<char> {
    match anchor {
        Some(a) => sig_anchor_text(Seq::empty(), a),
        None => Seq::empty(),
    }
}

fn opt_anchor_signature(anchor: &Option<Anchor>) -> (r: String)
    ensures
        r@ == opt_anchor_text(*anchor),
{
    match anchor {
        Some(a) => anchor_signature(a),
        None => String::new(),
    }
}

/// The notation of a drawing.
pub open spec fn drawing_text(d: Drawing) -> Seq<char>
    decreases d, 0nat,
{
    "drawing(w="@ + dec(d.w_emu as int) + ",h="@ + dec(d.h_emu as int) + ",alt="@
        + show_opt_str(opt_str(d.alt)) + ",anchor="@ + opt_anchor_text(d.anchor) + ",shape="@ + (
    match d.shape {
        Some(s) => shape_text(s),
        None => Seq::empty(),
    }) + ",group="@ + (match d.group {
        Some(g) => group_text(Seq::empty(), g.children@),
        None => Seq::empty(),
    }) + ")"@
}

/// The notation of a drawing, behind `acc`.
pub open spec fn sig_drawing_text(acc: Seq<char>, d: Drawing) -> Seq<char>
    decreases d, 1nat,
{
    acc + drawing_text(d)
}

/// Appends the notation of a drawing.
pub fn sig_drawing(drawing: &Drawing, out: &mut String)
    ensures
        final(out)@ == sig_drawing_text(old(out)@, *drawing),
        tells_drawing(*drawing),
    decreases *drawing, 0nat,
{
    let anchor: String = opt_anchor_signature(&drawing.anchor);
    let shape: String = match &drawing.shape {
        Some(s) => shape_signature(s),
        None => String::new(),
    };
    let group: String = match &drawing.group {
        Some(g) => group_signature(g),
        None => String::new(),
    };
    let mut own: String = "drawing(w=".to_owned();
    push_i64(&mut own, drawing.w_emu);
    own.append(",h=");
    push_i64(&mut own, drawing.h_emu);
    own.append(",alt=");
    push_opt_string(&mut own, &drawing.alt);
    own.append(",anchor=");
    own.append(anchor.as_str());
    own.append(",shape=");
    own.append(shape.as_str());
    own.append(",group=");
    own.append(group.as_str());
    own.append(")");
    out.append(own.as_str());
}

/// The notation of a shape.
pub open spec fn shape_text(shape: ShapeSpec) -> Seq<char>
    decreases shape, 0nat,
{
    "geom="@ + geom_text(shape.geom) + ",fill="@ + fill_text(shape.fill) + ",stroke="@
        + stroke_text(shape.stroke) + ",txbx="@ + (match shape.txbx {
        Some(txbx) => sig_blocks_text(
            "ins="@ + show_ints(txbx.ins@.map_values(|n: i64| n as int)) + ";"@,
            txbx.blocks@,
        ),
        None => Seq::empty(),
    })
}

/// The notation of a shape.
pub fn shape_signature(shape: &ShapeSpec) -> (r: String)
    ensures
        r@ == shape_text(*shape),
        tells_shape(*shape),
    decreases *shape, 0nat,
{
    let mut out: String = "geom=".to_owned();
    let geom: String = shape_geom_name(&shape.geom);
    out.append(geom.as_str());
    out.append(",fill=");
    let fill: String = fill_signature(&shape.fill);
    out.append(fill.as_str());
    out.append(",stroke=");
    let stroke: String = stroke_signature(&shape.stroke);
    out.append(stroke.as_str());
    out.append(",txbx=");
    let text: String = match &shape.txbx {
        Some(txbx) => {
            let mut t: String = "ins=".to_owned();
            push_dist(&mut t, txbx.ins);
            t.append(";");
            sig_blocks(&txbx.blocks, &mut t);
            t
        },
        None => String::new(),
    };
    out.append(text.as_str());
    out
}

/// The notation of the shapes of a group, behind `acc`.
pub open spec fn group_text(acc: Seq<char>, s: Seq<GroupChild>) -> Seq<char>
    decreases s, 0nat,
{
    if s.len() == 0 {
        acc
    } else {
        group_child_text(group_text(acc, s.drop_last()), s.last())
    }
}

/// The notation of one shape of a group, behind `acc`.
pub open spec fn group_child_text(acc: Seq<char>, child: GroupChild) -> Seq<char>
    decreases child, 0nat,
{
    acc + "child("@ + dec(child.x_emu as int) + ","@ + dec(child.y_emu as int) + ","@ + dec(
        child.w_emu as int,
    ) + ","@ + dec(child.h_emu as int) + ","@ + shape_text(child.shape) + ");"@
}

fn push_group_child(child: &GroupChild, out: &mut String)
    ensures
        final(out)@ == group_child_text(old(out)@, *child),
        tells_group_child(*child),
    decreases *child, 0nat,
{
    let shape: String = shape_signature(&child.shape);
    out.append("child(");
    push_i64(out, child.x_emu);
    out.append(",");
    push_i64(out, child.y_emu);
    out.append(",");
    push_i64(out, child.w_emu);
    out.append(",");
    push_i64(out, child.h_emu);
    out.append(",");
    out.append(shape.as_str());
    out.append(");");
}

/// The notation of a group.
pub fn group_signature(group: &GroupSpec) -> (r: String)
    ensures
        r@ == group_text(Seq::empty(), group.children@),
        tells_group(group.children@),
    decreases *group, 0nat,
{
    let mut out: String = String::new();
    let s: &Vec<GroupChild> = &group.children;
    let mut i: usize = 0;
    while i < s.len()
        invariant
            i <= s.len(),
            *s == group.children,
            out@ == group_text(Seq::empty(), s@.take(i as int)),
            forall|k: int| 0 <= k < i ==> tells_group_child(#[trigger] s@[k]),
        decreases s.len() - i,
    {
        assert(s@.take(i + 1).drop_last() =~= s@.take(i as int));
        proof {
            assert(decreases_to!(group => group.children));
            assert(decreases_to!(group.children => group.children@));
            assert(decreases_to!(group.children@ => group.children@[i as int]));
        }
        push_group_child(&s[i], &mut out);
        i = i + 1;
    }
    assert(s@.take(i as int) =~= s@);
    out
}

/// The signature of lowered furniture. Text and its formatting show in it: furniture
/// with another text, font, size or color of one text run has another signature. In
/// the cached result of a live field the formatting shows and the text does not.
pub fn furniture_signature(blocks: &Vec<Block>) -> (r: String)
    ensures
        r@ == sig_blocks_text(Seq::empty(), blocks@),
        forall|other: Seq<Block>| #[trigger]
            edited_blocks(blocks@, other) ==> sig_blocks_text(Seq::empty(), other) != r@,
{
    let mut out: String = String::new();
    sig_blocks(blocks, &mut out);
    proof {
        assert forall|other: Seq<Block>| #[trigger]
            edited_blocks(blocks@, other) implies sig_blocks_text(Seq::empty(), other)
            != out@ by {
            lemma_edits_show(blocks@, other);
        }
    }
    out
}

} // verus!
