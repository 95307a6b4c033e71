//! What the markup of tables says, read back from what is written.

use vstd::prelude::*;

use crate::dom::{Border, Cell, CellBorders, Row, TblProps, VMerge};
use crate::encode::reading::{part, part_says, reading, says};
use crate::encode::section_laws::{read_valign, start_words};
use crate::encode::table::{
    border_side_xml, cell_borders_xml, grid_xml, tblpr_xml, tcpr_xml, trpr_xml,
};
use crate::text::{colors_read_back, dec, hex_rgb, lemma_dec_injective};
use crate::xml::{El, Xml};

verus! {

/// The vertical merge that a cell's properties state: none without the element,
/// and otherwise what its value names.
pub open spec fn read_merge(properties: El) -> Option<VMerge> {
    match part(properties, "w:vMerge"@) {
        Some(merge) => if says(merge, "w:val"@) == Some("restart"@) {
            Some(VMerge::Restart)
        } else if says(merge, "w:val"@) == Some("continue"@) {
            Some(VMerge::Continue)
        } else {
            None
        },
        None => None,
    }
}

proof fn cell_words()
    ensures
        "w:tcW"@ != "w:gridSpan"@,
        "w:tcW"@ != "w:vMerge"@,
        "w:tcW"@ != "w:tcBorders"@,
        "w:tcW"@ != "w:shd"@,
        "w:tcW"@ != "w:vAlign"@,
        "w:gridSpan"@ != "w:vMerge"@,
        "w:gridSpan"@ != "w:tcBorders"@,
        "w:gridSpan"@ != "w:shd"@,
        "w:gridSpan"@ != "w:vAlign"@,
        "w:vMerge"@ != "w:tcBorders"@,
        "w:vMerge"@ != "w:shd"@,
        "w:vMerge"@ != "w:vAlign"@,
        "w:tcBorders"@ != "w:shd"@,
        "w:tcBorders"@ != "w:vAlign"@,
        "w:shd"@ != "w:vAlign"@,
        "w:val"@ != "w:color"@,
        "w:val"@ != "w:fill"@,
        "w:color"@ != "w:fill"@,
        "w:w"@ != "w:type"@,
        "restart"@ != "continue"@,
{
    reveal_strlit("w:tcW");
    reveal_strlit("w:gridSpan");
    reveal_strlit("w:vMerge");
    reveal_strlit("w:tcBorders");
    reveal_strlit("w:shd");
    reveal_strlit("w:vAlign");
    reveal_strlit("w:val");
    reveal_strlit("w:color");
    reveal_strlit("w:fill");
    reveal_strlit("w:w");
    reveal_strlit("w:type");
    reveal_strlit("restart");
    reveal_strlit("continue");
    assert("w:tcW"@[2] != "w:shd"@[2]);
    assert("w:vMerge"@[3] != "w:vAlign"@[3]);
    assert("w:tcW"@.len() == 5 && "w:gridSpan"@.len() == 10 && "w:vMerge"@.len() == 8
        && "w:tcBorders"@.len() == 11);
    assert("w:val"@.len() == 5 && "w:color"@.len() == 7 && "w:fill"@.len() == 6);
    assert("w:w"@.len() == 3 && "w:type"@.len() == 6);
    assert("restart"@.len() == 7 && "continue"@.len() == 8);
}

/// The vertical merge of a cell reads back from what is written of it.
pub proof fn merges_read_back(cell: Cell)
    ensures
        read_merge(tcpr_xml(cell)) == cell.v_merge,
{
    broadcast use reading;

    cell_words();
}

/// Cells that merge differently are written differently.
pub proof fn different_merges_are_written_differently(a: Cell, b: Cell)
    requires
        a.v_merge != b.v_merge,
    ensures
        tcpr_xml(a) != tcpr_xml(b),
{
    merges_read_back(a);
    merges_read_back(b);
}

/// A cell's properties state its width, its span over columns where it is more
/// than one, its shading and its vertical alignment, each where the cell has it and
/// under its own name.
pub proof fn cell_properties_read_back(cell: Cell)
    ensures
        tcpr_xml(cell).name == "w:tcPr"@,
        part_says(tcpr_xml(cell), "w:tcW"@, "w:w"@) == (match cell.w_dxa {
            Some(width) => Some(dec(width as int)),
            None => None,
        }),
        cell.w_dxa is Some ==> part_says(tcpr_xml(cell), "w:tcW"@, "w:type"@) == Some("dxa"@),
        cell.grid_span > 1 ==> part_says(tcpr_xml(cell), "w:gridSpan"@, "w:val"@) == Some(
            dec(cell.grid_span as int),
        ),
        cell.grid_span <= 1 ==> part(tcpr_xml(cell), "w:gridSpan"@) is None,
        part_says(tcpr_xml(cell), "w:shd"@, "w:fill"@) == (match cell.shd_fill {
            Some(fill) => Some(hex_rgb(fill)),
            None => None,
        }),
        part(tcpr_xml(cell), "w:tcBorders"@) == Some(cell_borders_xml(cell.borders)),
        read_valign(tcpr_xml(cell)) == cell.valign,
{
    broadcast use reading;

    cell_words();
    start_words();
    assert(crate::encode::table::twips_xml("w:tcW"@, 0).name == "w:tcW"@);
}

/// Cells of different widths, spans or shading are written differently.
pub proof fn different_cells_are_written_differently(a: Cell, b: Cell)
    requires
        tcpr_xml(a) == tcpr_xml(b),
    ensures
        a.w_dxa == b.w_dxa,
        a.grid_span == b.grid_span || (a.grid_span <= 1 && b.grid_span <= 1),
        a.v_merge == b.v_merge,
        a.shd_fill is Some <==> b.shd_fill is Some,
        a.shd_fill is Some ==> a.shd_fill.unwrap()@ =~= b.shd_fill.unwrap()@,
        a.valign == b.valign,
{
    cell_properties_read_back(a);
    cell_properties_read_back(b);
    merges_read_back(a);
    merges_read_back(b);
    if a.w_dxa is Some && b.w_dxa is Some {
        lemma_dec_injective(a.w_dxa.unwrap() as int, b.w_dxa.unwrap() as int);
    }
    if a.grid_span > 1 && b.grid_span > 1 {
        lemma_dec_injective(a.grid_span as int, b.grid_span as int);
    }
    if a.shd_fill is Some && b.shd_fill is Some {
        colors_read_back(a.shd_fill.unwrap());
        colors_read_back(b.shd_fill.unwrap());
    }
}

proof fn side_words()
    ensures
        "w:top"@ != "w:left"@,
        "w:top"@ != "w:bottom"@,
        "w:top"@ != "w:right"@,
        "w:left"@ != "w:bottom"@,
        "w:left"@ != "w:right"@,
        "w:bottom"@ != "w:right"@,
        "w:top"@ != "w:insideH"@,
        "w:top"@ != "w:insideV"@,
        "w:left"@ != "w:insideH"@,
        "w:left"@ != "w:insideV"@,
        "w:bottom"@ != "w:insideH"@,
        "w:bottom"@ != "w:insideV"@,
        "w:right"@ != "w:insideH"@,
        "w:right"@ != "w:insideV"@,
        "w:insideH"@ != "w:insideV"@,
        "w:val"@ != "w:sz"@,
        "w:val"@ != "w:space"@,
        "w:val"@ != "w:color"@,
        "w:sz"@ != "w:space"@,
        "w:sz"@ != "w:color"@,
        "w:space"@ != "w:color"@,
        "single"@ != "nil"@,
{
    reveal_strlit("w:top");
    reveal_strlit("w:left");
    reveal_strlit("w:bottom");
    reveal_strlit("w:right");
    reveal_strlit("w:insideH");
    reveal_strlit("w:insideV");
    reveal_strlit("w:val");
    reveal_strlit("w:sz");
    reveal_strlit("w:space");
    reveal_strlit("w:color");
    reveal_strlit("single");
    reveal_strlit("nil");
    assert("w:top"@.len() == 5 && "w:left"@.len() == 6 && "w:bottom"@.len() == 8
        && "w:right"@.len() == 7 && "w:insideH"@.len() == 9);
    assert("w:insideH"@[8] != "w:insideV"@[8]);
    assert("w:val"@.len() == 5 && "w:sz"@.len() == 4 && "w:space"@.len() == 7);
    assert("w:space"@[2] != "w:color"@[2]);
    assert("single"@.len() == 6 && "nil"@.len() == 3);
}

/// Whether an element states a border, or that there is none.
pub open spec fn states_border(side: El, border: Option<Border>) -> bool {
    match border {
        Some(b) => {
            &&& says(side, "w:val"@) == Some("single"@)
            &&& says(side, "w:sz"@) == Some(dec(b.sz as int))
            &&& says(side, "w:color"@) == Some(hex_rgb(b.color))
        },
        None => says(side, "w:val"@) == Some("nil"@),
    }
}

/// Each side of a cell states its own border, and says so where it has none.
pub proof fn cell_sides_read_back(b: CellBorders)
    ensures
        part(cell_borders_xml(b), "w:top"@) is Some,
        part(cell_borders_xml(b), "w:left"@) is Some,
        part(cell_borders_xml(b), "w:bottom"@) is Some,
        part(cell_borders_xml(b), "w:right"@) is Some,
        states_border(part(cell_borders_xml(b), "w:top"@).unwrap(), b.top),
        states_border(part(cell_borders_xml(b), "w:left"@).unwrap(), b.left),
        states_border(part(cell_borders_xml(b), "w:bottom"@).unwrap(), b.bottom),
        states_border(part(cell_borders_xml(b), "w:right"@).unwrap(), b.right),
        "single"@ != "nil"@,
{
    broadcast use reading;

    side_words();
    assert(border_side_xml("w:top"@, b.top).name == "w:top"@);
    assert(border_side_xml("w:left"@, b.left).name == "w:left"@);
    assert(border_side_xml("w:bottom"@, b.bottom).name == "w:bottom"@);
    assert(border_side_xml("w:right"@, b.right).name == "w:right"@);
}

proof fn row_words()
    ensures
        "w:trHeight"@ != "w:tblHeader"@,
        "w:trHeight"@ != "w:cantSplit"@,
        "w:tblHeader"@ != "w:cantSplit"@,
        "w:val"@ != "w:hRule"@,
        "exact"@ != "atLeast"@,
{
    reveal_strlit("w:trHeight");
    reveal_strlit("w:tblHeader");
    reveal_strlit("w:cantSplit");
    reveal_strlit("w:val");
    reveal_strlit("w:hRule");
    reveal_strlit("exact");
    reveal_strlit("atLeast");
    assert("w:trHeight"@.len() == 10 && "w:tblHeader"@.len() == 11 && "w:cantSplit"@.len() == 11);
    assert("w:tblHeader"@[2] != "w:cantSplit"@[2]);
    assert("w:val"@.len() == 5 && "w:hRule"@.len() == 7);
    assert("exact"@.len() == 5 && "atLeast"@.len() == 7);
}

/// A row has properties exactly where it states something, and they say whether it
/// repeats as a header, whether it may split, and its height, exact or at least.
pub proof fn row_properties_read_back(row: Row)
    ensures
        trpr_xml(row).len() == (if row.header || row.cant_split || row.height is Some {
            1int
        } else {
            0
        }),
        trpr_xml(row).len() == 1 ==> {
            &&& trpr_xml(row)[0] is El
            &&& trpr_xml(row)[0]->El_0.name == "w:trPr"@
            &&& part(trpr_xml(row)[0]->El_0, "w:tblHeader"@) is Some <==> row.header
            &&& part(trpr_xml(row)[0]->El_0, "w:cantSplit"@) is Some <==> row.cant_split
            &&& part(trpr_xml(row)[0]->El_0, "w:trHeight"@) is Some <==> row.height is Some
            &&& row.height is Some ==> part_says(
                trpr_xml(row)[0]->El_0,
                "w:trHeight"@,
                "w:val"@,
            ) == Some(dec(row.height.unwrap().val as int))
            &&& row.height is Some && row.height.unwrap().exact ==> part_says(
                trpr_xml(row)[0]->El_0,
                "w:trHeight"@,
                "w:hRule"@,
            ) == Some("exact"@)
            &&& row.height is Some && !row.height.unwrap().exact ==> part_says(
                trpr_xml(row)[0]->El_0,
                "w:trHeight"@,
                "w:hRule"@,
            ) == Some("atLeast"@)
        },
        "exact"@ != "atLeast"@,
{
    broadcast use reading;

    row_words();
}

proof fn table_words()
    ensures
        "w:tblW"@ != "w:tblInd"@,
        "w:tblW"@ != "w:tblBorders"@,
        "w:tblW"@ != "w:tblLayout"@,
        "w:tblInd"@ != "w:tblBorders"@,
        "w:tblInd"@ != "w:tblLayout"@,
        "w:tblBorders"@ != "w:tblLayout"@,
        "w:w"@ != "w:type"@,
        "auto"@ != "dxa"@,
{
    reveal_strlit("w:tblW");
    reveal_strlit("w:tblInd");
    reveal_strlit("w:tblBorders");
    reveal_strlit("w:tblLayout");
    reveal_strlit("w:w");
    reveal_strlit("w:type");
    reveal_strlit("auto");
    reveal_strlit("dxa");
    assert("w:tblW"@.len() == 6 && "w:tblInd"@.len() == 8 && "w:tblBorders"@.len() == 12
        && "w:tblLayout"@.len() == 11);
    assert("w:w"@.len() == 3 && "w:type"@.len() == 6);
    assert("auto"@.len() == 4 && "dxa"@.len() == 3);
}

/// A table's properties state its width, or that it has none of its own; its
/// offset from the margin, where it has one; a visible line on every edge and
/// between cells; and that its columns keep their widths.
pub proof fn table_properties_read_back(props: TblProps)
    ensures
        tblpr_xml(props).name == "w:tblPr"@,
        props.width_dxa is Some ==> {
            &&& part_says(tblpr_xml(props), "w:tblW"@, "w:w"@) == Some(
                dec(props.width_dxa.unwrap() as int),
            )
            &&& part_says(tblpr_xml(props), "w:tblW"@, "w:type"@) == Some("dxa"@)
        },
        props.width_dxa is None ==> part_says(tblpr_xml(props), "w:tblW"@, "w:type"@) == Some(
            "auto"@,
        ),
        part_says(tblpr_xml(props), "w:tblInd"@, "w:w"@) == (match props.ind_dxa {
            Some(ind) => Some(dec(ind as int)),
            None => None,
        }),
        part_says(tblpr_xml(props), "w:tblLayout"@, "w:type"@) == Some("fixed"@),
        part(tblpr_xml(props), "w:tblBorders"@) is Some,
        ({
            let lines = part(tblpr_xml(props), "w:tblBorders"@).unwrap();
            &&& part_says(lines, "w:top"@, "w:val"@) == Some("single"@)
            &&& part_says(lines, "w:left"@, "w:val"@) == Some("single"@)
            &&& part_says(lines, "w:bottom"@, "w:val"@) == Some("single"@)
            &&& part_says(lines, "w:right"@, "w:val"@) == Some("single"@)
            &&& part_says(lines, "w:insideH"@, "w:val"@) == Some("single"@)
            &&& part_says(lines, "w:insideV"@, "w:val"@) == Some("single"@)
        }),
{
    broadcast use reading;

    table_words();
    side_words();
    assert(crate::encode::table::twips_xml("w:tblW"@, 0).name == "w:tblW"@);
    assert(crate::encode::table::edge_xml("w:top"@).name == "w:top"@);
    assert(crate::encode::table::edge_xml("w:left"@).name == "w:left"@);
    assert(crate::encode::table::edge_xml("w:bottom"@).name == "w:bottom"@);
    assert(crate::encode::table::edge_xml("w:right"@).name == "w:right"@);
    assert(crate::encode::table::edge_xml("w:insideH"@).name == "w:insideH"@);
    assert(crate::encode::table::edge_xml("w:insideV"@).name == "w:insideV"@);
}

/// The grid of a table states every column's width, in order.
pub proof fn column_widths_read_back(grid: Seq<i32>)
    ensures
        grid_xml(grid).name == "w:tblGrid"@,
        grid_xml(grid).children.len() == grid.len(),
        forall|i: int|
            #![trigger grid[i]]
            0 <= i < grid.len() ==> {
                let col = grid_xml(grid).children[i];
                &&& col is El
                &&& col->El_0.name == "w:gridCol"@
                &&& says(col->El_0, "w:w"@) == Some(dec(grid[i] as int))
            },
{
    broadcast use reading;

    let cols = grid.map_values(
        |col: i32| Xml::El(crate::xml::el("w:gridCol"@).attr("w:w"@, dec(col as int))),
    );
    assert(grid_xml(grid).children =~= cols);
}

} // verus!
