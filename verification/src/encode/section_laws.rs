//! What the markup of sections says, read back from what is written.

use vstd::prelude::*;

use crate::document::geometry::SectGeom;
use crate::document::parts::states_geometry;
use crate::dom::{HdrFtrRef, SectPr, SectType, VAlign};
use crate::encode::reading::{first_named, part, part_says, reading, says};
use crate::encode::section::{
    columns_xml, line_numbers_xml, page_margins_xml, page_numbers_xml, page_size_xml, refs_xml,
    sect_type_name, sectpr_xml, valign_name,
};
use crate::text::{dec, lemma_dec_injective};
use crate::xml::El;

verus! {

proof fn section_words()
    ensures
        "w:headerReference"@ != "w:footerReference"@,
        "w:headerReference"@ != "w:type"@,
        "w:headerReference"@ != "w:pgSz"@,
        "w:headerReference"@ != "w:pgMar"@,
        "w:headerReference"@ != "w:lnNumType"@,
        "w:headerReference"@ != "w:pgNumType"@,
        "w:headerReference"@ != "w:cols"@,
        "w:headerReference"@ != "w:vAlign"@,
        "w:headerReference"@ != "w:titlePg"@,
        "w:headerReference"@ != "w:docGrid"@,
        "w:footerReference"@ != "w:type"@,
        "w:footerReference"@ != "w:pgSz"@,
        "w:footerReference"@ != "w:pgMar"@,
        "w:footerReference"@ != "w:lnNumType"@,
        "w:footerReference"@ != "w:pgNumType"@,
        "w:footerReference"@ != "w:cols"@,
        "w:footerReference"@ != "w:vAlign"@,
        "w:footerReference"@ != "w:titlePg"@,
        "w:footerReference"@ != "w:docGrid"@,
        "w:type"@ != "w:pgSz"@,
        "w:type"@ != "w:pgMar"@,
        "w:type"@ != "w:lnNumType"@,
        "w:type"@ != "w:pgNumType"@,
        "w:type"@ != "w:cols"@,
        "w:type"@ != "w:vAlign"@,
        "w:type"@ != "w:titlePg"@,
        "w:type"@ != "w:docGrid"@,
        "w:pgSz"@ != "w:pgMar"@,
        "w:pgSz"@ != "w:lnNumType"@,
        "w:pgSz"@ != "w:pgNumType"@,
        "w:pgSz"@ != "w:cols"@,
        "w:pgSz"@ != "w:vAlign"@,
        "w:pgSz"@ != "w:titlePg"@,
        "w:pgSz"@ != "w:docGrid"@,
        "w:pgMar"@ != "w:lnNumType"@,
        "w:pgMar"@ != "w:pgNumType"@,
        "w:pgMar"@ != "w:cols"@,
        "w:pgMar"@ != "w:vAlign"@,
        "w:pgMar"@ != "w:titlePg"@,
        "w:pgMar"@ != "w:docGrid"@,
        "w:lnNumType"@ != "w:pgNumType"@,
        "w:lnNumType"@ != "w:cols"@,
        "w:lnNumType"@ != "w:vAlign"@,
        "w:lnNumType"@ != "w:titlePg"@,
        "w:lnNumType"@ != "w:docGrid"@,
        "w:pgNumType"@ != "w:cols"@,
        "w:pgNumType"@ != "w:vAlign"@,
        "w:pgNumType"@ != "w:titlePg"@,
        "w:pgNumType"@ != "w:docGrid"@,
        "w:cols"@ != "w:vAlign"@,
        "w:cols"@ != "w:titlePg"@,
        "w:cols"@ != "w:docGrid"@,
        "w:vAlign"@ != "w:titlePg"@,
        "w:vAlign"@ != "w:docGrid"@,
        "w:titlePg"@ != "w:docGrid"@,
        "w:type"@ != "r:id"@,
        "w:w"@ != "w:h"@,
        "w:w"@ != "w:orient"@,
        "w:h"@ != "w:orient"@,
        "w:top"@ != "w:right"@,
        "w:top"@ != "w:bottom"@,
        "w:top"@ != "w:left"@,
        "w:top"@ != "w:header"@,
        "w:top"@ != "w:footer"@,
        "w:top"@ != "w:gutter"@,
        "w:right"@ != "w:bottom"@,
        "w:right"@ != "w:left"@,
        "w:right"@ != "w:header"@,
        "w:right"@ != "w:footer"@,
        "w:right"@ != "w:gutter"@,
        "w:bottom"@ != "w:left"@,
        "w:bottom"@ != "w:header"@,
        "w:bottom"@ != "w:footer"@,
        "w:bottom"@ != "w:gutter"@,
        "w:left"@ != "w:header"@,
        "w:left"@ != "w:footer"@,
        "w:left"@ != "w:gutter"@,
        "w:header"@ != "w:footer"@,
        "w:header"@ != "w:gutter"@,
        "w:footer"@ != "w:gutter"@,
        "w:countBy"@ != "w:start"@,
        "w:countBy"@ != "w:restart"@,
        "w:countBy"@ != "w:distance"@,
        "w:start"@ != "w:restart"@,
        "w:start"@ != "w:distance"@,
        "w:restart"@ != "w:distance"@,
        "w:fmt"@ != "w:start"@,
        "w:num"@ != "w:space"@,
        "w:num"@ != "w:equalWidth"@,
        "w:space"@ != "w:equalWidth"@,
{
    reveal_strlit("w:headerReference");
    reveal_strlit("w:footerReference");
    reveal_strlit("w:type");
    reveal_strlit("w:pgSz");
    reveal_strlit("w:pgMar");
    reveal_strlit("w:lnNumType");
    reveal_strlit("w:pgNumType");
    reveal_strlit("w:cols");
    reveal_strlit("w:vAlign");
    reveal_strlit("w:titlePg");
    reveal_strlit("w:docGrid");
    reveal_strlit("r:id");
    reveal_strlit("w:w");
    reveal_strlit("w:h");
    reveal_strlit("w:orient");
    reveal_strlit("w:top");
    reveal_strlit("w:right");
    reveal_strlit("w:bottom");
    reveal_strlit("w:left");
    reveal_strlit("w:header");
    reveal_strlit("w:footer");
    reveal_strlit("w:gutter");
    reveal_strlit("w:countBy");
    reveal_strlit("w:start");
    reveal_strlit("w:restart");
    reveal_strlit("w:distance");
    reveal_strlit("w:fmt");
    reveal_strlit("w:num");
    reveal_strlit("w:space");
    reveal_strlit("w:equalWidth");
    assert("w:headerReference"@.len() == 17);
    assert("w:footerReference"@.len() == 17);
    assert("w:type"@.len() == 6);
    assert("w:pgSz"@.len() == 6);
    assert("w:pgMar"@.len() == 7);
    assert("w:lnNumType"@.len() == 11);
    assert("w:pgNumType"@.len() == 11);
    assert("w:cols"@.len() == 6);
    assert("w:vAlign"@.len() == 8);
    assert("w:titlePg"@.len() == 9);
    assert("w:docGrid"@.len() == 9);
    assert("r:id"@.len() == 4);
    assert("w:w"@.len() == 3);
    assert("w:h"@.len() == 3);
    assert("w:orient"@.len() == 8);
    assert("w:top"@.len() == 5);
    assert("w:right"@.len() == 7);
    assert("w:bottom"@.len() == 8);
    assert("w:left"@.len() == 6);
    assert("w:header"@.len() == 8);
    assert("w:footer"@.len() == 8);
    assert("w:gutter"@.len() == 8);
    assert("w:countBy"@.len() == 9);
    assert("w:start"@.len() == 7);
    assert("w:restart"@.len() == 9);
    assert("w:distance"@.len() == 10);
    assert("w:fmt"@.len() == 5);
    assert("w:num"@.len() == 5);
    assert("w:space"@.len() == 7);
    assert("w:equalWidth"@.len() == 12);
    assert("w:headerReference"@[2] != "w:footerReference"@[2]);
    assert("w:type"@[2] != "w:pgSz"@[2]);
    assert("w:type"@[2] != "w:cols"@[2]);
    assert("w:pgSz"@[2] != "w:cols"@[2]);
    assert("w:lnNumType"@[2] != "w:pgNumType"@[2]);
    assert("w:titlePg"@[2] != "w:docGrid"@[2]);
    assert("w:w"@[2] != "w:h"@[2]);
    assert("w:bottom"@[2] != "w:header"@[2]);
    assert("w:bottom"@[2] != "w:footer"@[2]);
    assert("w:bottom"@[2] != "w:gutter"@[2]);
    assert("w:header"@[2] != "w:footer"@[2]);
    assert("w:header"@[2] != "w:gutter"@[2]);
    assert("w:footer"@[2] != "w:gutter"@[2]);
    assert("w:countBy"@[2] != "w:restart"@[2]);
}

pub proof fn start_words()
    ensures
        "nextPage"@ != "evenPage"@,
        "nextPage"@ != "oddPage"@,
        "nextPage"@ != "continuous"@,
        "evenPage"@ != "oddPage"@,
        "evenPage"@ != "continuous"@,
        "oddPage"@ != "continuous"@,
        "top"@ != "center"@,
        "top"@ != "bottom"@,
        "center"@ != "bottom"@,
{
    reveal_strlit("nextPage");
    reveal_strlit("evenPage");
    reveal_strlit("oddPage");
    reveal_strlit("continuous");
    reveal_strlit("top");
    reveal_strlit("center");
    reveal_strlit("bottom");
    assert("nextPage"@.len() == 8);
    assert("evenPage"@.len() == 8);
    assert("oddPage"@.len() == 7);
    assert("continuous"@.len() == 10);
    assert("top"@.len() == 3);
    assert("center"@.len() == 6);
    assert("bottom"@.len() == 6);
    assert("nextPage"@[0] != "evenPage"@[0]);
    assert("center"@[0] != "bottom"@[0]);
}

/// How a section starts, as its properties state it: on the next page without the
/// element, and otherwise as its value names.
pub open spec fn read_start(properties: El) -> Option<SectType> {
    match part(properties, "w:type"@) {
        Some(start) => if says(start, "w:val"@) == Some("nextPage"@) {
            Some(SectType::NextPage)
        } else if says(start, "w:val"@) == Some("evenPage"@) {
            Some(SectType::EvenPage)
        } else if says(start, "w:val"@) == Some("oddPage"@) {
            Some(SectType::OddPage)
        } else if says(start, "w:val"@) == Some("continuous"@) {
            Some(SectType::Continuous)
        } else {
            None
        },
        None => None,
    }
}

/// The vertical alignment that properties state.
pub open spec fn read_valign(properties: El) -> Option<VAlign> {
    match part(properties, "w:vAlign"@) {
        Some(align) => if says(align, "w:val"@) == Some("top"@) {
            Some(VAlign::Top)
        } else if says(align, "w:val"@) == Some("center"@) {
            Some(VAlign::Center)
        } else if says(align, "w:val"@) == Some("bottom"@) {
            Some(VAlign::Bottom)
        } else {
            None
        },
        None => None,
    }
}

proof fn lemma_refs(name: Seq<char>, refs: Seq<HdrFtrRef>, n: Seq<char>)
    ensures
        name != n ==> first_named(refs_xml(name, refs), n) is None,
    decreases refs.len(),
{
    if refs.len() > 0 {
        lemma_refs(name, refs.drop_last(), n);
        assert(refs_xml(name, refs).drop_last() =~= refs_xml(name, refs.drop_last()));
    }
}

proof fn lemma_names(s: SectPr)
    ensures
        page_size_xml(s).name == "w:pgSz"@,
        page_margins_xml(s).name == "w:pgMar"@,
        columns_xml(s).name == "w:cols"@,
        s.line_numbers is Some ==> line_numbers_xml(s.line_numbers.unwrap()).name
            == "w:lnNumType"@,
        s.pg_num is Some ==> page_numbers_xml(s.pg_num.unwrap()).name == "w:pgNumType"@,
{
}

proof fn lemma_before_type(s: SectPr, n: Seq<char>)
    requires
        n != "w:headerReference"@,
        n != "w:footerReference"@,
    ensures
        part(
            crate::xml::el("w:sectPr"@).all(refs_xml("w:headerReference"@, s.headers@)).all(
                refs_xml("w:footerReference"@, s.footers@),
            ),
            n,
        ) is None,
{
    broadcast use reading;

    lemma_refs("w:headerReference"@, s.headers@, n);
    lemma_refs("w:footerReference"@, s.footers@, n);
}

proof fn lemma_parts(s: SectPr)
    ensures
        part(sectpr_xml(s), "w:type"@) == (match s.sect_type {
            Some(t) => Some(crate::xml::el("w:type"@).attr("w:val"@, sect_type_name(t))),
            None => None,
        }),
        part(sectpr_xml(s), "w:pgSz"@) == Some(page_size_xml(s)),
        part(sectpr_xml(s), "w:pgMar"@) == Some(page_margins_xml(s)),
        part(sectpr_xml(s), "w:cols"@) == Some(columns_xml(s)),
        part(sectpr_xml(s), "w:lnNumType"@) == (match s.line_numbers {
            Some(l) => Some(line_numbers_xml(l)),
            None => None,
        }),
        part(sectpr_xml(s), "w:pgNumType"@) == (match s.pg_num {
            Some(p) => Some(page_numbers_xml(p)),
            None => None,
        }),
        part(sectpr_xml(s), "w:vAlign"@) == (match s.vertical_align {
            Some(v) => Some(crate::xml::el("w:vAlign"@).attr("w:val"@, valign_name(v))),
            None => None,
        }),
        part(sectpr_xml(s), "w:titlePg"@) is Some <==> s.title_pg,
{
    broadcast use reading;

    section_words();
    lemma_names(s);
    lemma_before_type(s, "w:type"@);
    lemma_before_type(s, "w:pgSz"@);
    lemma_before_type(s, "w:pgMar"@);
    lemma_before_type(s, "w:cols"@);
    lemma_before_type(s, "w:lnNumType"@);
    lemma_before_type(s, "w:pgNumType"@);
    lemma_before_type(s, "w:vAlign"@);
    lemma_before_type(s, "w:titlePg"@);
}

/// How a section starts and how its pages align read back from what is written.
pub proof fn section_starts_read_back(s: SectPr)
    ensures
        read_start(sectpr_xml(s)) == s.sect_type,
        read_valign(sectpr_xml(s)) == s.vertical_align,
        part(sectpr_xml(s), "w:titlePg"@) is Some <==> s.title_pg,
{
    broadcast use reading;

    lemma_parts(s);
    start_words();
}

/// The size, the orientation and the margins of a page read back from what is
/// written, each under its own name.
pub proof fn page_setup_reads_back(s: SectPr)
    ensures
        part_says(sectpr_xml(s), "w:pgSz"@, "w:w"@) == Some(dec(s.page_w as int)),
        part_says(sectpr_xml(s), "w:pgSz"@, "w:h"@) == Some(dec(s.page_h as int)),
        s.landscape ==> part_says(sectpr_xml(s), "w:pgSz"@, "w:orient"@) == Some("landscape"@),
        !s.landscape ==> part_says(sectpr_xml(s), "w:pgSz"@, "w:orient"@) is None,
        part_says(sectpr_xml(s), "w:pgMar"@, "w:top"@) == Some(dec(s.margin_top as int)),
        part_says(sectpr_xml(s), "w:pgMar"@, "w:bottom"@) == Some(dec(s.margin_bottom as int)),
        part_says(sectpr_xml(s), "w:pgMar"@, "w:left"@) == Some(dec(s.margin_left as int)),
        part_says(sectpr_xml(s), "w:pgMar"@, "w:right"@) == Some(dec(s.margin_right as int)),
        part_says(sectpr_xml(s), "w:pgMar"@, "w:header"@) == Some(dec(s.header as int)),
        part_says(sectpr_xml(s), "w:pgMar"@, "w:footer"@) == Some(dec(s.footer as int)),
        part_says(sectpr_xml(s), "w:pgMar"@, "w:gutter"@) == Some(dec(s.gutter as int)),
{
    broadcast use reading;

    lemma_parts(s);
    section_words();
}

/// The columns, the line numbers and the page numbers of a section read back from
/// what is written; a single column has no count.
pub proof fn section_numbers_read_back(s: SectPr)
    ensures
        s.columns > 1 ==> part_says(sectpr_xml(s), "w:cols"@, "w:num"@) == Some(
            dec(s.columns as int),
        ),
        s.columns <= 1 ==> part_says(sectpr_xml(s), "w:cols"@, "w:num"@) is None,
        part_says(sectpr_xml(s), "w:cols"@, "w:space"@) == Some(dec(s.col_space as int)),
        part(sectpr_xml(s), "w:lnNumType"@) is Some <==> s.line_numbers is Some,
        s.line_numbers is Some ==> {
            let l = s.line_numbers.unwrap();
            &&& part_says(sectpr_xml(s), "w:lnNumType"@, "w:countBy"@) == Some(
                dec(l.count_by as int),
            )
            &&& part_says(sectpr_xml(s), "w:lnNumType"@, "w:start"@) == Some(dec(l.start as int))
            &&& part_says(sectpr_xml(s), "w:lnNumType"@, "w:restart"@) == Some(l.restart@)
            &&& part_says(sectpr_xml(s), "w:lnNumType"@, "w:distance"@) == Some(
                dec(l.distance as int),
            )
        },
        part(sectpr_xml(s), "w:pgNumType"@) is Some <==> s.pg_num is Some,
        s.pg_num is Some ==> {
            let p = s.pg_num.unwrap();
            &&& part_says(sectpr_xml(s), "w:pgNumType"@, "w:fmt"@) == Some(p.fmt@)
            &&& p.start is Some ==> part_says(sectpr_xml(s), "w:pgNumType"@, "w:start"@) == Some(
                dec(p.start.unwrap() as int),
            )
            &&& p.start is None ==> part_says(sectpr_xml(s), "w:pgNumType"@, "w:start"@) is None
        },
{
    broadcast use reading;

    lemma_parts(s);
    section_words();
}

/// A section names its headers first and its footers next, each by its kind and
/// its relationship.
pub proof fn header_and_footer_references_read_back(s: SectPr, i: int)
    ensures
        0 <= i < s.headers@.len() ==> {
            let r = sectpr_xml(s).children[i];
            &&& i < sectpr_xml(s).children.len()
            &&& r is El
            &&& r->El_0.name == "w:headerReference"@
            &&& says(r->El_0, "w:type"@) == Some(s.headers@[i].kind@)
            &&& says(r->El_0, "r:id"@) == Some(s.headers@[i].rel@)
        },
        0 <= i < s.footers@.len() ==> {
            let r = sectpr_xml(s).children[s.headers@.len() + i];
            &&& s.headers@.len() + i < sectpr_xml(s).children.len()
            &&& r is El
            &&& r->El_0.name == "w:footerReference"@
            &&& says(r->El_0, "w:type"@) == Some(s.footers@[i].kind@)
            &&& says(r->El_0, "r:id"@) == Some(s.footers@[i].rel@)
        },
{
    broadcast use reading;

    section_words();
    let refs = refs_xml("w:headerReference"@, s.headers@) + refs_xml(
        "w:footerReference"@,
        s.footers@,
    );
    let e = crate::xml::el("w:sectPr"@).all(refs_xml("w:headerReference"@, s.headers@)).all(
        refs_xml("w:footerReference"@, s.footers@),
    );
    assert(e.children =~= refs);
    assert(sectpr_xml(s).children.len() >= refs.len());
    assert(sectpr_xml(s).children.take(refs.len() as int) =~= refs);
    if 0 <= i < s.headers@.len() {
        assert(sectpr_xml(s).children.take(refs.len() as int)[i] == refs[i]);
    }
    if 0 <= i < s.footers@.len() {
        assert(sectpr_xml(s).children.take(refs.len() as int)[s.headers@.len() + i]
            == refs[s.headers@.len() + i]);
    }
}

/// Sections that start or are set up differently are written differently.
pub proof fn different_sections_are_written_differently(a: SectPr, b: SectPr)
    requires
        sectpr_xml(a) == sectpr_xml(b),
    ensures
        a.sect_type == b.sect_type,
        a.vertical_align == b.vertical_align,
        a.title_pg == b.title_pg,
        a.page_w == b.page_w,
        a.page_h == b.page_h,
        a.landscape == b.landscape,
        a.margin_top == b.margin_top,
        a.margin_bottom == b.margin_bottom,
        a.margin_left == b.margin_left,
        a.margin_right == b.margin_right,
        a.header == b.header,
        a.footer == b.footer,
        a.gutter == b.gutter,
        a.col_space == b.col_space,
        a.columns == b.columns || (a.columns <= 1 && b.columns <= 1),
{
    section_starts_read_back(a);
    section_starts_read_back(b);
    page_setup_reads_back(a);
    page_setup_reads_back(b);
    section_numbers_read_back(a);
    section_numbers_read_back(b);
    lemma_dec_injective(a.page_w as int, b.page_w as int);
    lemma_dec_injective(a.page_h as int, b.page_h as int);
    lemma_dec_injective(a.margin_top as int, b.margin_top as int);
    lemma_dec_injective(a.margin_bottom as int, b.margin_bottom as int);
    lemma_dec_injective(a.margin_left as int, b.margin_left as int);
    lemma_dec_injective(a.margin_right as int, b.margin_right as int);
    lemma_dec_injective(a.header as int, b.header as int);
    lemma_dec_injective(a.footer as int, b.footer as int);
    lemma_dec_injective(a.gutter as int, b.gutter as int);
    lemma_dec_injective(a.col_space as int, b.col_space as int);
    if a.columns > 1 && b.columns > 1 {
        lemma_dec_injective(a.columns as int, b.columns as int);
    }
}

/// The page setup that section properties state is the one that their markup says.
pub proof fn page_setups_are_written(s: SectPr, g: SectGeom)
    requires
        states_geometry(s, g),
    ensures
        part_says(sectpr_xml(s), "w:pgSz"@, "w:w"@) == Some(dec(g.page_w as int)),
        part_says(sectpr_xml(s), "w:pgSz"@, "w:h"@) == Some(dec(g.page_h as int)),
        part_says(sectpr_xml(s), "w:pgSz"@, "w:orient"@) is Some <==> g.landscape,
        part_says(sectpr_xml(s), "w:pgMar"@, "w:top"@) == Some(dec(g.margin_top as int)),
        part_says(sectpr_xml(s), "w:pgMar"@, "w:bottom"@) == Some(dec(g.margin_bottom as int)),
        part_says(sectpr_xml(s), "w:pgMar"@, "w:left"@) == Some(dec(g.margin_left as int)),
        part_says(sectpr_xml(s), "w:pgMar"@, "w:right"@) == Some(dec(g.margin_right as int)),
        part_says(sectpr_xml(s), "w:pgMar"@, "w:header"@) == Some(dec(g.header_band as int)),
        part_says(sectpr_xml(s), "w:pgMar"@, "w:footer"@) == Some(dec(g.footer_band as int)),
        part_says(sectpr_xml(s), "w:pgMar"@, "w:gutter"@) == Some(dec(g.gutter as int)),
        g.columns > 1 ==> part_says(sectpr_xml(s), "w:cols"@, "w:num"@) == Some(
            dec(g.columns as int),
        ),
        part_says(sectpr_xml(s), "w:cols"@, "w:space"@) == Some(dec(g.col_space as int)),
        read_valign(sectpr_xml(s)) == g.vertical_align,
        part(sectpr_xml(s), "w:lnNumType"@) is Some <==> g.line_numbers is Some,
        part(sectpr_xml(s), "w:titlePg"@) is None,
{
    page_setup_reads_back(s);
    section_numbers_read_back(s);
    section_starts_read_back(s);
}

} // verus!
