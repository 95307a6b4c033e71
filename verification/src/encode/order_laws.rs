//! The order of properties, which the format fixes.

use vstd::prelude::*;

use crate::dom::{Cell, HdrFtrRef, ListLevel, SectPr, TblProps, VMerge};
use crate::encode::parts::{level_xml, val_xml};
use crate::encode::section::{
    columns_xml, line_numbers_xml, page_margins_xml, page_numbers_xml, page_size_xml, refs_xml,
    sect_type_name, sectpr_xml, valign_name,
};
use crate::encode::table::{cell_borders_xml, edge_xml, tblpr_xml, tcpr_xml, twips_xml};
use crate::text::{dec, hex_rgb};
use crate::xml::{El, el};

verus! {

proof fn ordered_words()
    ensures
        "w:tcW"@ != "w:gridSpan"@,
        "w:tcW"@ != "w:vMerge"@,
        "w:tcW"@ != "w:tcBorders"@,
        "w:tcW"@ != "w:shd"@,
        "w:tcW"@ != "w:vAlign"@,
        "w:gridSpan"@ != "w:vMerge"@,
        "w:gridSpan"@ != "w:tcBorders"@,
        "w:gridSpan"@ != "w:shd"@,
        "w:gridSpan"@ != "w:vAlign"@,
        "w:vMerge"@ != "w:tcBorders"@,
        "w:vMerge"@ != "w:shd"@,
        "w:vMerge"@ != "w:vAlign"@,
        "w:tcBorders"@ != "w:shd"@,
        "w:tcBorders"@ != "w:vAlign"@,
        "w:shd"@ != "w:vAlign"@,
        "w:tblW"@ != "w:tblInd"@,
        "w:tblW"@ != "w:tblBorders"@,
        "w:tblW"@ != "w:tblLayout"@,
        "w:tblInd"@ != "w:tblBorders"@,
        "w:tblInd"@ != "w:tblLayout"@,
        "w:tblBorders"@ != "w:tblLayout"@,
        "w:headerReference"@ != "w:footerReference"@,
        "w:headerReference"@ != "w:type"@,
        "w:headerReference"@ != "w:pgSz"@,
        "w:headerReference"@ != "w:pgMar"@,
        "w:headerReference"@ != "w:lnNumType"@,
        "w:headerReference"@ != "w:pgNumType"@,
        "w:headerReference"@ != "w:cols"@,
        "w:headerReference"@ != "w:vAlign"@,
        "w:headerReference"@ != "w:titlePg"@,
        "w:headerReference"@ != "w:docGrid"@,
        "w:footerReference"@ != "w:type"@,
        "w:footerReference"@ != "w:pgSz"@,
        "w:footerReference"@ != "w:pgMar"@,
        "w:footerReference"@ != "w:lnNumType"@,
        "w:footerReference"@ != "w:pgNumType"@,
        "w:footerReference"@ != "w:cols"@,
        "w:footerReference"@ != "w:vAlign"@,
        "w:footerReference"@ != "w:titlePg"@,
        "w:footerReference"@ != "w:docGrid"@,
        "w:type"@ != "w:pgSz"@,
        "w:type"@ != "w:pgMar"@,
        "w:type"@ != "w:lnNumType"@,
        "w:type"@ != "w:pgNumType"@,
        "w:type"@ != "w:cols"@,
        "w:type"@ != "w:vAlign"@,
        "w:type"@ != "w:titlePg"@,
        "w:type"@ != "w:docGrid"@,
        "w:pgSz"@ != "w:pgMar"@,
        "w:pgSz"@ != "w:lnNumType"@,
        "w:pgSz"@ != "w:pgNumType"@,
        "w:pgSz"@ != "w:cols"@,
        "w:pgSz"@ != "w:vAlign"@,
        "w:pgSz"@ != "w:titlePg"@,
        "w:pgSz"@ != "w:docGrid"@,
        "w:pgMar"@ != "w:lnNumType"@,
        "w:pgMar"@ != "w:pgNumType"@,
        "w:pgMar"@ != "w:cols"@,
        "w:pgMar"@ != "w:vAlign"@,
        "w:pgMar"@ != "w:titlePg"@,
        "w:pgMar"@ != "w:docGrid"@,
        "w:lnNumType"@ != "w:pgNumType"@,
        "w:lnNumType"@ != "w:cols"@,
        "w:lnNumType"@ != "w:vAlign"@,
        "w:lnNumType"@ != "w:titlePg"@,
        "w:lnNumType"@ != "w:docGrid"@,
        "w:pgNumType"@ != "w:cols"@,
        "w:pgNumType"@ != "w:vAlign"@,
        "w:pgNumType"@ != "w:titlePg"@,
        "w:pgNumType"@ != "w:docGrid"@,
        "w:cols"@ != "w:vAlign"@,
        "w:cols"@ != "w:titlePg"@,
        "w:cols"@ != "w:docGrid"@,
        "w:vAlign"@ != "w:titlePg"@,
        "w:vAlign"@ != "w:docGrid"@,
        "w:titlePg"@ != "w:docGrid"@,
        "w:start"@ != "w:numFmt"@,
        "w:start"@ != "w:pStyle"@,
        "w:start"@ != "w:lvlText"@,
        "w:start"@ != "w:lvlJc"@,
        "w:start"@ != "w:pPr"@,
        "w:start"@ != "w:rPr"@,
        "w:numFmt"@ != "w:pStyle"@,
        "w:numFmt"@ != "w:lvlText"@,
        "w:numFmt"@ != "w:lvlJc"@,
        "w:numFmt"@ != "w:pPr"@,
        "w:numFmt"@ != "w:rPr"@,
        "w:pStyle"@ != "w:lvlText"@,
        "w:pStyle"@ != "w:lvlJc"@,
        "w:pStyle"@ != "w:pPr"@,
        "w:pStyle"@ != "w:rPr"@,
        "w:lvlText"@ != "w:lvlJc"@,
        "w:lvlText"@ != "w:pPr"@,
        "w:lvlText"@ != "w:rPr"@,
        "w:lvlJc"@ != "w:pPr"@,
        "w:lvlJc"@ != "w:rPr"@,
        "w:pPr"@ != "w:rPr"@,
{
    reveal_strlit("w:tcW");
    reveal_strlit("w:gridSpan");
    reveal_strlit("w:vMerge");
    reveal_strlit("w:tcBorders");
    reveal_strlit("w:shd");
    reveal_strlit("w:vAlign");
    reveal_strlit("w:tblW");
    reveal_strlit("w:tblInd");
    reveal_strlit("w:tblBorders");
    reveal_strlit("w:tblLayout");
    reveal_strlit("w:headerReference");
    reveal_strlit("w:footerReference");
    reveal_strlit("w:type");
    reveal_strlit("w:pgSz");
    reveal_strlit("w:pgMar");
    reveal_strlit("w:lnNumType");
    reveal_strlit("w:pgNumType");
    reveal_strlit("w:cols");
    reveal_strlit("w:titlePg");
    reveal_strlit("w:docGrid");
    reveal_strlit("w:start");
    reveal_strlit("w:numFmt");
    reveal_strlit("w:pStyle");
    reveal_strlit("w:lvlText");
    reveal_strlit("w:lvlJc");
    reveal_strlit("w:pPr");
    reveal_strlit("w:rPr");
    assert("w:tcW"@.len() == 5);
    assert("w:gridSpan"@.len() == 10);
    assert("w:vMerge"@.len() == 8);
    assert("w:tcBorders"@.len() == 11);
    assert("w:shd"@.len() == 5);
    assert("w:vAlign"@.len() == 8);
    assert("w:tblW"@.len() == 6);
    assert("w:tblInd"@.len() == 8);
    assert("w:tblBorders"@.len() == 12);
    assert("w:tblLayout"@.len() == 11);
    assert("w:headerReference"@.len() == 17);
    assert("w:footerReference"@.len() == 17);
    assert("w:type"@.len() == 6);
    assert("w:pgSz"@.len() == 6);
    assert("w:pgMar"@.len() == 7);
    assert("w:lnNumType"@.len() == 11);
    assert("w:pgNumType"@.len() == 11);
    assert("w:cols"@.len() == 6);
    assert("w:titlePg"@.len() == 9);
    assert("w:docGrid"@.len() == 9);
    assert("w:start"@.len() == 7);
    assert("w:numFmt"@.len() == 8);
    assert("w:pStyle"@.len() == 8);
    assert("w:lvlText"@.len() == 9);
    assert("w:lvlJc"@.len() == 7);
    assert("w:pPr"@.len() == 5);
    assert("w:rPr"@.len() == 5);
    assert("w:tcW"@[2] != "w:shd"@[2]);
    assert("w:vMerge"@[3] != "w:vAlign"@[3]);
    assert("w:headerReference"@[2] != "w:footerReference"@[2]);
    assert("w:type"@[2] != "w:pgSz"@[2]);
    assert("w:type"@[2] != "w:cols"@[2]);
    assert("w:pgSz"@[2] != "w:cols"@[2]);
    assert("w:lnNumType"@[2] != "w:pgNumType"@[2]);
    assert("w:titlePg"@[2] != "w:docGrid"@[2]);
    assert("w:start"@[2] != "w:lvlJc"@[2]);
    assert("w:numFmt"@[2] != "w:pStyle"@[2]);
    assert("w:pPr"@[2] != "w:rPr"@[2]);
}

/// Whether the children of an element are elements in the order of their ranks, all
/// of them below `limit`.
pub open spec fn in_order(e: El, rank: spec_fn(Seq<char>) -> int, limit: int) -> bool {
    &&& forall|i: int|
        0 <= i < e.children.len() ==> (#[trigger] e.children[i]) is El && rank(
            e.children[i]->El_0.name,
        ) < limit
    &&& forall|i: int, j: int|
        0 <= i < j < e.children.len() ==> rank((#[trigger] e.children[i])->El_0.name) <= rank(
            (#[trigger] e.children[j])->El_0.name,
        )
}

proof fn lemma_none(e: El, rank: spec_fn(Seq<char>) -> int, limit: int)
    requires
        e.children.len() == 0,
    ensures
        in_order(e, rank, limit),
{
}

proof fn lemma_next(e: El, x: El, rank: spec_fn(Seq<char>) -> int, limit: int)
    requires
        in_order(e, rank, limit),
        limit - 1 <= rank(x.name),
    ensures
        in_order(e.elem(x), rank, rank(x.name) + 1),
{
    let t = e.elem(x);
    assert forall|i: int, j: int| 0 <= i < j < t.children.len() implies rank(
        (#[trigger] t.children[i])->El_0.name,
    ) <= rank((#[trigger] t.children[j])->El_0.name) by {
        assert(t.children[i] == e.children[i]);
        if j < e.children.len() {
            assert(t.children[j] == e.children[j]);
        }
    }
}

proof fn lemma_weaken(e: El, rank: spec_fn(Seq<char>) -> int, limit: int, more: int)
    requires
        in_order(e, rank, limit),
        limit <= more,
    ensures
        in_order(e, rank, more),
{
}

/// Where a property of a cell belongs.
pub open spec fn cell_rank(name: Seq<char>) -> int {
    if name == "w:tcW"@ {
        0
    } else if name == "w:gridSpan"@ {
        1
    } else if name == "w:vMerge"@ {
        2
    } else if name == "w:tcBorders"@ {
        3
    } else if name == "w:shd"@ {
        4
    } else if name == "w:vAlign"@ {
        5
    } else {
        6
    }
}

/// Where a property of a table belongs.
pub open spec fn table_rank(name: Seq<char>) -> int {
    if name == "w:tblW"@ {
        0
    } else if name == "w:tblInd"@ {
        1
    } else if name == "w:tblBorders"@ {
        2
    } else if name == "w:tblLayout"@ {
        3
    } else {
        4
    }
}

/// Where a property of a section belongs.
pub open spec fn section_rank(name: Seq<char>) -> int {
    if name == "w:headerReference"@ {
        0
    } else if name == "w:footerReference"@ {
        1
    } else if name == "w:type"@ {
        2
    } else if name == "w:pgSz"@ {
        3
    } else if name == "w:pgMar"@ {
        4
    } else if name == "w:lnNumType"@ {
        5
    } else if name == "w:pgNumType"@ {
        6
    } else if name == "w:cols"@ {
        7
    } else if name == "w:vAlign"@ {
        8
    } else if name == "w:titlePg"@ {
        9
    } else if name == "w:docGrid"@ {
        10
    } else {
        11
    }
}

/// Where a property of a numbering level belongs.
pub open spec fn level_rank(name: Seq<char>) -> int {
    if name == "w:start"@ {
        0
    } else if name == "w:numFmt"@ {
        1
    } else if name == "w:pStyle"@ {
        2
    } else if name == "w:lvlText"@ {
        3
    } else if name == "w:lvlJc"@ {
        4
    } else if name == "w:pPr"@ {
        5
    } else if name == "w:rPr"@ {
        6
    } else {
        7
    }
}


/// The properties of a cell stand in their order.
pub proof fn cell_properties_are_in_order(cell: Cell)
    ensures
        in_order(tcpr_xml(cell), |n: Seq<char>| cell_rank(n), 6),
{
    ordered_words();
    let rank = |n: Seq<char>| cell_rank(n);
    let e0 = el("w:tcPr"@);
    lemma_none(e0, rank, 0);
    let x1 = twips_xml("w:tcW"@, cell.w_dxa.unwrap() as int);
    assert(x1.name == "w:tcW"@);
    lemma_next(e0, x1, rank, 0);
    lemma_weaken(e0, rank, 0, 1);
    let e1 = if cell.w_dxa is Some {
        e0.elem(x1)
    } else {
        e0
    };
    let x2 = el("w:gridSpan"@).attr("w:val"@, dec(cell.grid_span as int));
    lemma_next(e1, x2, rank, 1);
    lemma_weaken(e1, rank, 1, 2);
    let e2 = if cell.grid_span > 1 {
        e1.elem(x2)
    } else {
        e1
    };
    let x3 = el("w:vMerge"@).attr("w:val"@, "restart"@);
    let y3 = el("w:vMerge"@).attr("w:val"@, "continue"@);
    lemma_next(e2, x3, rank, 2);
    lemma_next(e2, y3, rank, 2);
    lemma_weaken(e2, rank, 2, 3);
    let e3 = match cell.v_merge {
        Some(VMerge::Restart) => e2.elem(x3),
        Some(VMerge::Continue) => e2.elem(y3),
        None => e2,
    };
    let x4 = cell_borders_xml(cell.borders);
    assert(x4.name == "w:tcBorders"@);
    lemma_next(e3, x4, rank, 3);
    let e4 = e3.elem(x4);
    let x5 = el("w:shd"@).attr("w:val"@, "clear"@).attr("w:color"@, "auto"@).attr(
        "w:fill"@,
        hex_rgb(cell.shd_fill.unwrap()),
    );
    lemma_next(e4, x5, rank, 4);
    lemma_weaken(e4, rank, 4, 5);
    let e5 = if cell.shd_fill is Some {
        e4.elem(x5)
    } else {
        e4
    };
    let x6 = el("w:vAlign"@).attr("w:val"@, valign_name(cell.valign.unwrap()));
    lemma_next(e5, x6, rank, 5);
    lemma_weaken(e5, rank, 5, 6);
}

/// The properties of a table stand in their order.
pub proof fn table_properties_are_in_order(props: TblProps)
    ensures
        in_order(tblpr_xml(props), |n: Seq<char>| table_rank(n), 4),
{
    ordered_words();
    let rank = |n: Seq<char>| table_rank(n);
    let e0 = el("w:tblPr"@);
    lemma_none(e0, rank, 0);
    let x1 = match props.width_dxa {
        Some(width) => twips_xml("w:tblW"@, width as int),
        None => el("w:tblW"@).attr("w:w"@, "0"@).attr("w:type"@, "auto"@),
    };
    assert(x1.name == "w:tblW"@);
    lemma_next(e0, x1, rank, 0);
    let e1 = e0.elem(x1);
    let x2 = twips_xml("w:tblInd"@, props.ind_dxa.unwrap() as int);
    assert(x2.name == "w:tblInd"@);
    lemma_next(e1, x2, rank, 1);
    lemma_weaken(e1, rank, 1, 2);
    let e2 = if props.ind_dxa is Some {
        e1.elem(x2)
    } else {
        e1
    };
    let x3 = el("w:tblBorders"@).elem(edge_xml("w:top"@)).elem(edge_xml("w:left"@)).elem(
        edge_xml("w:bottom"@),
    ).elem(edge_xml("w:right"@)).elem(edge_xml("w:insideH"@)).elem(edge_xml("w:insideV"@));
    lemma_next(e2, x3, rank, 2);
    let x4 = el("w:tblLayout"@).attr("w:type"@, "fixed"@);
    lemma_next(e2.elem(x3), x4, rank, 3);
}

proof fn lemma_refs_in_order(
    e: El,
    name: Seq<char>,
    refs: Seq<HdrFtrRef>,
    rank: spec_fn(Seq<char>) -> int,
    limit: int,
)
    requires
        in_order(e, rank, limit),
        limit - 1 <= rank(name),
    ensures
        in_order(e.all(refs_xml(name, refs)), rank, rank(name) + 1),
    decreases refs.len(),
{
    if refs.len() == 0 {
        assert(e.all(refs_xml(name, refs)).children =~= e.children);
        lemma_weaken(e, rank, limit, rank(name) + 1);
    } else {
        lemma_refs_in_order(e, name, refs.drop_last(), rank, limit);
        let before = e.all(refs_xml(name, refs.drop_last()));
        let x = el(name).attr("w:type"@, refs.last().kind@).attr("r:id"@, refs.last().rel@);
        lemma_next(before, x, rank, rank(name) + 1);
        assert(e.all(refs_xml(name, refs)).children =~= before.elem(x).children);
    }
}

/// The properties of a section stand in their order: headers, footers, how it
/// starts, the page, line numbers, page numbers, columns, alignment, the first page
/// and the grid.
pub proof fn section_properties_are_in_order(s: SectPr)
    ensures
        in_order(sectpr_xml(s), |n: Seq<char>| section_rank(n), 11),
{
    ordered_words();
    let rank = |n: Seq<char>| section_rank(n);
    let e0 = el("w:sectPr"@);
    lemma_none(e0, rank, 0);
    lemma_refs_in_order(e0, "w:headerReference"@, s.headers@, rank, 0);
    let h = e0.all(refs_xml("w:headerReference"@, s.headers@));
    lemma_refs_in_order(h, "w:footerReference"@, s.footers@, rank, 1);
    let e1 = h.all(refs_xml("w:footerReference"@, s.footers@));
    let x2 = el("w:type"@).attr("w:val"@, sect_type_name(s.sect_type.unwrap()));
    lemma_next(e1, x2, rank, 2);
    lemma_weaken(e1, rank, 2, 3);
    let e2 = if s.sect_type is Some {
        e1.elem(x2)
    } else {
        e1
    };
    assert(page_size_xml(s).name == "w:pgSz"@);
    assert(page_margins_xml(s).name == "w:pgMar"@);
    lemma_next(e2, page_size_xml(s), rank, 3);
    lemma_next(e2.elem(page_size_xml(s)), page_margins_xml(s), rank, 4);
    let e4 = e2.elem(page_size_xml(s)).elem(page_margins_xml(s));
    let x5 = line_numbers_xml(s.line_numbers.unwrap());
    assert(x5.name == "w:lnNumType"@);
    lemma_next(e4, x5, rank, 5);
    lemma_weaken(e4, rank, 5, 6);
    let e5 = if s.line_numbers is Some {
        e4.elem(x5)
    } else {
        e4
    };
    let x6 = page_numbers_xml(s.pg_num.unwrap());
    assert(x6.name == "w:pgNumType"@);
    lemma_next(e5, x6, rank, 6);
    lemma_weaken(e5, rank, 6, 7);
    let e6 = if s.pg_num is Some {
        e5.elem(x6)
    } else {
        e5
    };
    assert(columns_xml(s).name == "w:cols"@);
    lemma_next(e6, columns_xml(s), rank, 7);
    let e7 = e6.elem(columns_xml(s));
    let x8 = el("w:vAlign"@).attr("w:val"@, valign_name(s.vertical_align.unwrap()));
    lemma_next(e7, x8, rank, 8);
    lemma_weaken(e7, rank, 8, 9);
    let e8 = if s.vertical_align is Some {
        e7.elem(x8)
    } else {
        e7
    };
    let x9 = el("w:titlePg"@);
    lemma_next(e8, x9, rank, 9);
    lemma_weaken(e8, rank, 9, 10);
    let e9 = if s.title_pg {
        e8.elem(x9)
    } else {
        e8
    };
    let x10 = el("w:docGrid"@).attr("w:linePitch"@, "360"@);
    lemma_next(e9, x10, rank, 10);
}

/// The properties of a numbering level stand in their order.
pub proof fn level_properties_are_in_order(i: int, level: ListLevel)
    ensures
        in_order(level_xml(i, level), |n: Seq<char>| level_rank(n), 7),
{
    ordered_words();
    let rank = |n: Seq<char>| level_rank(n);
    let e0 = el("w:lvl"@).attr("w:ilvl"@, dec(i));
    lemma_none(e0, rank, 0);
    let x1 = val_xml("w:start"@, dec(level.start as int));
    let x2 = val_xml("w:numFmt"@, level.num_fmt.name());
    assert(x1.name == "w:start"@ && x2.name == "w:numFmt"@);
    lemma_next(e0, x1, rank, 0);
    lemma_next(e0.elem(x1), x2, rank, 1);
    let e2 = e0.elem(x1).elem(x2);
    let x3 = val_xml("w:pStyle"@, level.pstyle.unwrap()@);
    assert(x3.name == "w:pStyle"@);
    lemma_next(e2, x3, rank, 2);
    lemma_weaken(e2, rank, 2, 3);
    let e3 = if level.pstyle is Some {
        e2.elem(x3)
    } else {
        e2
    };
    let x4 = val_xml("w:lvlText"@, level.lvl_text@);
    let x5 = val_xml("w:lvlJc"@, "left"@);
    assert(x4.name == "w:lvlText"@ && x5.name == "w:lvlJc"@);
    lemma_next(e3, x4, rank, 3);
    lemma_next(e3.elem(x4), x5, rank, 4);
    let e5 = e3.elem(x4).elem(x5);
    let x6 = el("w:pPr"@).elem(
        el("w:ind"@).attr("w:left"@, dec(level.ind_left as int)).attr(
            "w:hanging"@,
            dec(level.ind_hanging as int),
        ),
    );
    lemma_next(e5, x6, rank, 5);
    let font = level.bullet_font.unwrap()@;
    let x7 = el("w:rPr"@).elem(
        el("w:rFonts"@).attr("w:ascii"@, font).attr("w:hAnsi"@, font).attr("w:cs"@, font),
    );
    lemma_next(e5.elem(x6), x7, rank, 6);
    lemma_weaken(e5.elem(x6), rank, 6, 7);
}

} // verus!
