//! Section properties.

use vstd::prelude::*;

use crate::dom::{HdrFtrRef, LineNumbering, PgNumType, SectPr, SectType, VAlign};
use crate::text::{dec, dec_i64, dec_u64};
use crate::xml::{El, Elem, Node, Xml, el, nothing, open, put_elem, xmls};

verus! {

/// The references of a section to its header or footer parts.
pub open spec fn refs_xml(name: Seq<char>, refs: Seq<HdrFtrRef>) -> Seq<Xml> {
    refs.map_values(
        |r: HdrFtrRef| Xml::El(el(name).attr("w:type"@, r.kind@).attr("r:id"@, r.rel@)),
    )
}

fn write_refs<'a>(name: &'static str, refs: &Vec<HdrFtrRef>) -> (r: Vec<Node<'a>>)
    ensures
        xmls(r@) == refs_xml(name@, refs@),
{
    let mut r: Vec<Node<'a>> = nothing();
    let mut i: usize = 0;
    assert(xmls(r@) =~= refs_xml(name@, refs@.take(0)));
    while i < refs.len()
        invariant
            i <= refs.len(),
            xmls(r@) == refs_xml(name@, refs@.take(i as int)),
        decreases refs.len() - i,
    {
        put_elem(
            &mut r,
            open(name).attr("w:type", refs[i].kind).attr("r:id", refs[i].rel.as_str()),
        );
        assert(xmls(r@) =~= refs_xml(name@, refs@.take(i + 1)));
        i = i + 1;
    }
    assert(refs@.take(i as int) =~= refs@);
    r
}

/// The name of a way for a section to start.
pub open spec fn sect_type_name(t: SectType) -> Seq<char> {
    match t {
        SectType::NextPage => "nextPage"@,
        SectType::EvenPage => "evenPage"@,
        SectType::OddPage => "oddPage"@,
        SectType::Continuous => "continuous"@,
    }
}

fn sect_type_str(t: SectType) -> (r: &'static str)
    ensures
        r@ == sect_type_name(t),
{
    match t {
        SectType::NextPage => "nextPage",
        SectType::EvenPage => "evenPage",
        SectType::OddPage => "oddPage",
        SectType::Continuous => "continuous",
    }
}

/// The name of a vertical alignment.
pub open spec fn valign_name(v: VAlign) -> Seq<char> {
    match v {
        VAlign::Top => "top"@,
        VAlign::Center => "center"@,
        VAlign::Bottom => "bottom"@,
    }
}

/// The name of a vertical alignment.
pub fn valign_str(v: VAlign) -> (r: &'static str)
    ensures
        r@ == valign_name(v),
{
    match v {
        VAlign::Top => "top",
        VAlign::Center => "center",
        VAlign::Bottom => "bottom",
    }
}

/// The page size of a section.
pub open spec fn page_size_xml(s: SectPr) -> El {
    let size = el("w:pgSz"@).attr("w:w"@, dec(s.page_w as int)).attr("w:h"@, dec(s.page_h as int));
    if s.landscape {
        size.attr("w:orient"@, "landscape"@)
    } else {
        size
    }
}

/// The page margins of a section.
pub open spec fn page_margins_xml(s: SectPr) -> El {
    el("w:pgMar"@).attr("w:top"@, dec(s.margin_top as int)).attr(
        "w:right"@,
        dec(s.margin_right as int),
    ).attr("w:bottom"@, dec(s.margin_bottom as int)).attr(
        "w:left"@,
        dec(s.margin_left as int),
    ).attr("w:header"@, dec(s.header as int)).attr("w:footer"@, dec(s.footer as int)).attr(
        "w:gutter"@,
        dec(s.gutter as int),
    )
}

/// The line numbering of a section.
pub open spec fn line_numbers_xml(l: LineNumbering) -> El {
    el("w:lnNumType"@).attr("w:countBy"@, dec(l.count_by as int)).attr(
        "w:start"@,
        dec(l.start as int),
    ).attr("w:restart"@, l.restart@).attr("w:distance"@, dec(l.distance as int))
}

/// The page numbering of a section.
pub open spec fn page_numbers_xml(p: PgNumType) -> El {
    let e = el("w:pgNumType"@).attr("w:fmt"@, p.fmt@);
    match p.start {
        Some(start) => e.attr("w:start"@, dec(start as int)),
        None => e,
    }
}

/// The columns of a section.
pub open spec fn columns_xml(s: SectPr) -> El {
    if s.columns > 1 {
        el("w:cols"@).attr("w:num"@, dec(s.columns as int)).attr(
            "w:space"@,
            dec(s.col_space as int),
        ).attr("w:equalWidth"@, "1"@)
    } else {
        el("w:cols"@).attr("w:space"@, dec(s.col_space as int))
    }
}

/// The properties of a section. The order of the children is fixed by the
/// format: references first, then how the section starts, the page, line and
/// page numbers, columns, alignment, the distinct first page, and the line grid.
pub open spec fn sectpr_xml(s: SectPr) -> El {
    let e = el("w:sectPr"@).all(refs_xml("w:headerReference"@, s.headers@)).all(
        refs_xml("w:footerReference"@, s.footers@),
    );
    let e = match s.sect_type {
        Some(t) => e.elem(el("w:type"@).attr("w:val"@, sect_type_name(t))),
        None => e,
    };
    let e = e.elem(page_size_xml(s)).elem(page_margins_xml(s));
    let e = match s.line_numbers {
        Some(l) => e.elem(line_numbers_xml(l)),
        None => e,
    };
    let e = match s.pg_num {
        Some(p) => e.elem(page_numbers_xml(p)),
        None => e,
    };
    let e = e.elem(columns_xml(s));
    let e = match s.vertical_align {
        Some(v) => e.elem(el("w:vAlign"@).attr("w:val"@, valign_name(v))),
        None => e,
    };
    let e = if s.title_pg {
        e.elem(el("w:titlePg"@))
    } else {
        e
    };
    e.elem(el("w:docGrid"@).attr("w:linePitch"@, "360"@))
}

fn int32(n: i32) -> (r: String)
    ensures
        r@ == dec(n as int),
{
    dec_i64(n as i64)
}

fn write_page_size<'a>(s: &SectPr) -> (r: Elem<'a>)
    ensures
        r@ == page_size_xml(*s),
{
    let size: Elem<'a> = open("w:pgSz").attr("w:w", int32(s.page_w).as_str()).attr(
        "w:h",
        int32(s.page_h).as_str(),
    );
    if s.landscape {
        size.attr("w:orient", "landscape")
    } else {
        size
    }
}

fn write_page_margins<'a>(s: &SectPr) -> (r: Elem<'a>)
    ensures
        r@ == page_margins_xml(*s),
{
    open("w:pgMar").attr("w:top", int32(s.margin_top).as_str()).attr(
        "w:right",
        int32(s.margin_right).as_str(),
    ).attr("w:bottom", int32(s.margin_bottom).as_str()).attr(
        "w:left",
        int32(s.margin_left).as_str(),
    ).attr("w:header", int32(s.header).as_str()).attr("w:footer", int32(s.footer).as_str()).attr(
        "w:gutter",
        int32(s.gutter).as_str(),
    )
}

fn write_line_numbers<'a>(l: &LineNumbering) -> (r: Elem<'a>)
    ensures
        r@ == line_numbers_xml(*l),
{
    open("w:lnNumType").attr("w:countBy", dec_u64(l.count_by as u64).as_str()).attr(
        "w:start",
        dec_u64(l.start as u64).as_str(),
    ).attr("w:restart", l.restart).attr("w:distance", int32(l.distance).as_str())
}

fn write_page_numbers<'a>(p: &PgNumType) -> (r: Elem<'a>)
    ensures
        r@ == page_numbers_xml(*p),
{
    let e: Elem<'a> = open("w:pgNumType").attr("w:fmt", p.fmt);
    match p.start {
        Some(start) => e.attr("w:start", dec_i64(start).as_str()),
        None => e,
    }
}

fn write_columns<'a>(s: &SectPr) -> (r: Elem<'a>)
    ensures
        r@ == columns_xml(*s),
{
    if s.columns > 1 {
        open("w:cols").attr("w:num", dec_u64(s.columns as u64).as_str()).attr(
            "w:space",
            int32(s.col_space).as_str(),
        ).attr("w:equalWidth", "1")
    } else {
        open("w:cols").attr("w:space", int32(s.col_space).as_str())
    }
}

/// Builds the properties of a section.
pub fn write_sectpr<'a>(s: &SectPr) -> (r: Elem<'a>)
    ensures
        r@ == sectpr_xml(*s),
{
    let e: Elem<'a> = open("w:sectPr").all(write_refs("w:headerReference", &s.headers)).all(
        write_refs("w:footerReference", &s.footers),
    );
    let e: Elem<'a> = match s.sect_type {
        Some(t) => e.elem(open("w:type").attr("w:val", sect_type_str(t))),
        None => e,
    };
    let e: Elem<'a> = e.elem(write_page_size(s)).elem(write_page_margins(s));
    let e: Elem<'a> = match &s.line_numbers {
        Some(l) => e.elem(write_line_numbers(l)),
        None => e,
    };
    let e: Elem<'a> = match &s.pg_num {
        Some(p) => e.elem(write_page_numbers(p)),
        None => e,
    };
    let e: Elem<'a> = e.elem(write_columns(s));
    let e: Elem<'a> = match s.vertical_align {
        Some(v) => e.elem(open("w:vAlign").attr("w:val", valign_str(v))),
        None => e,
    };
    let e: Elem<'a> = if s.title_pg {
        e.elem(open("w:titlePg"))
    } else {
        e
    };
    e.elem(open("w:docGrid").attr("w:linePitch", "360"))
}

} // verus!
